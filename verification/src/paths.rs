//! Paths: the home directory, joining, and tilde expansion.
use vstd::prelude::*;
use crate::config::{trim_prefix_all, trim_start_matches};
use crate::error::AppError;
use crate::text::{has_prefix, str_eq, chars_of, chars_start_with};
use crate::types::opt_view;

verus! {

/// The path that `PathBuf::push` makes of `base` and `part` (given as
/// UTF-8 text).
pub uninterp spec fn joined_path(base: Seq<char>, part: Seq<char>) -> Seq<char>;

/// Calls `PathBuf::push` on the path `base` with `part`, and gives the
/// result back as text. The result is named `joined_path` of the
/// arguments; nothing else is claimed of it.
#[verifier::external_body]
pub(crate) fn path_join(base: &str, part: &str) -> (r: String)
    ensures
        r@ == joined_path(base@, part@),
{
    let mut p = std::path::PathBuf::from(base);
    p.push(part);
    p.to_string_lossy().into_owned()
}

/// Calls `dirs::home_dir`. The home directory depends on the
/// environment, so nothing is claimed of the result.
#[verifier::external_body]
pub(crate) fn home_dir() -> (r: Option<String>) {
    dirs::home_dir().map(|p| p.to_string_lossy().into_owned())
}

/// A path with a leading `~` replaced by the home directory: `~` itself
/// becomes the home directory and `~/REST` the home directory joined with
/// `REST` (every leading `~/` removed); any other path, or any path when
/// the home directory is unknown, is kept.
pub open spec fn expand_tilde_spec(path: Seq<char>, home: Option<Seq<char>>) -> Seq<char> {
    if (has_prefix(path, "~/"@) || path == "~"@) && home is Some {
        if path == "~"@ {
            home->0
        } else {
            joined_path(home->0, trim_prefix_all(path, "~/"@))
        }
    } else {
        path
    }
}

/// Expands a leading `~` in a path, given the home directory.
pub fn expand_tilde_with_home(path: &str, home: Option<String>) -> (r: String)
    ensures
        r@ == expand_tilde_spec(path@, crate::types::opt_view(home)),
{
    let is_home = str_eq(path, "~");
    let cp = chars_of(path);
    let pre = chars_of("~/");
    let under_home = chars_start_with(cp.as_slice(), pre.as_slice());
    if is_home || under_home {
        match home {
            Some(h) => {
                if is_home {
                    return h;
                }
                let rest = trim_start_matches(path, "~/");
                return path_join(h.as_str(), rest.as_str());
            },
            None => {},
        }
    }
    path.to_string()
}

/// Expands a leading `~` in a path to the current user's home directory.
pub fn expand_tilde(path: &str) -> (r: String)
    ensures
        exists|h: Option<Seq<char>>| r@ == expand_tilde_spec(path@, h),
{
    let home = home_dir();
    let ghost hv = crate::types::opt_view(home);
    let r = expand_tilde_with_home(path, home);
    assert(r@ == expand_tilde_spec(path@, hv));
    r
}

/// A path given in the environment, else the default one.
pub open spec fn path_or(given: Option<Seq<char>>, default: Seq<char>) -> Seq<char> {
    match given {
        Some(p) => p,
        None => default,
    }
}

/// The files that the store reads and writes.
pub struct StorePaths {
    /// The AWS config file.
    pub aws_config: String,
    /// The AWS credentials file.
    pub aws_credentials: String,
    /// The global metadata file.
    pub metadata: String,
}

impl StorePaths {
    /// The paths given the home directory and the values of
    /// `AWS_CONFIG_FILE`, `AWS_SHARED_CREDENTIALS_FILE` and
    /// `AWSPM_METADATA_FILE`: each given path, else `~/.aws/config`,
    /// `~/.aws/credentials` and `~/.awspm.yaml`. Without a home directory
    /// it is an error.
    pub fn resolve(
        home: Option<String>,
        config_file: Option<String>,
        credentials_file: Option<String>,
        metadata_file: Option<String>,
    ) -> (r: Result<StorePaths, AppError>)
        ensures
            match home {
                None => r matches Err(AppError::HomeDirNotFound),
                Some(h) => r matches Ok(p) && p.aws_config@ == path_or(
                    opt_view(config_file),
                    joined_path(joined_path(h@, ".aws"@), "config"@),
                ) && p.aws_credentials@ == path_or(
                    opt_view(credentials_file),
                    joined_path(joined_path(h@, ".aws"@), "credentials"@),
                ) && p.metadata@ == path_or(opt_view(metadata_file), joined_path(h@, ".awspm.yaml"@)),
            },
    {
        let h = match home {
            Some(h) => h,
            None => { return Err(AppError::HomeDirNotFound); },
        };
        let aws_config = match config_file {
            Some(c) => c,
            None => path_join(path_join(h.as_str(), ".aws").as_str(), "config"),
        };
        let aws_credentials = match credentials_file {
            Some(c) => c,
            None => path_join(path_join(h.as_str(), ".aws").as_str(), "credentials"),
        };
        let metadata = match metadata_file {
            Some(m) => m,
            None => path_join(h.as_str(), ".awspm.yaml"),
        };
        Ok(StorePaths { aws_config, aws_credentials, metadata })
    }
}

} // verus!
