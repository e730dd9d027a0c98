//! Switching the shell to a profile: the checks, the record of use and
//! the environment of the subshell.
use vstd::prelude::*;
use crate::config::{Store, StoreView, has_name, name_pos, store_profiles};
use crate::exec::{EnvVar, env_views};
use crate::metadata::meta_insert;
use crate::policy::{ProfileSafetyPolicy, sensitive};
use crate::sso::{Instant, rfc3339_text, utc_now};
use crate::types::{Metadata, MetadataView, Profile, ProfileView, opt_view, profile_tags};

verus! {

/// What the checks before switching decide.
pub enum SwitchCheck {
    /// No profile has this name: nothing is done.
    NotFound,
    /// Ask the user to confirm first (a sensitive profile without `yes`).
    Confirm(Profile),
    /// Switch to this profile.
    Proceed(Profile),
}

/// The metadata of a profile after it was used at `timestamp`: its
/// metadata (or empty metadata) with the time of last use set.
pub open spec fn used_metadata(p: ProfileView, timestamp: Seq<char>) -> MetadataView {
    let base = match p.metadata {
        Some(m) => m,
        None => MetadataView::empty(),
    };
    MetadataView { last_used_at: Some(timestamp), ..base }
}

/// The variables of the subshell: `AWS_PROFILE`, and `AWS_REGION` when
/// the metadata sets a region (the region of the AWS config is left to
/// the AWS tools).
pub open spec fn switch_env(p: ProfileView, name: Seq<char>) -> Seq<(Seq<char>, Seq<char>)> {
    seq![("AWS_PROFILE"@, name)] + match p.metadata {
        Some(m) => match m.region {
            Some(r) => seq![("AWS_REGION"@, r)],
            None => Seq::<(Seq<char>, Seq<char>)>::empty(),
        },
        None => Seq::<(Seq<char>, Seq<char>)>::empty(),
    }
}

/// Calls `chrono::DateTime::<Utc>::to_rfc3339` on the instant (made with
/// `DateTime::from_timestamp`, which gives `None` out of range). The
/// result is named `rfc3339_text` of the instant.
#[verifier::external_body]
fn format_rfc3339(t: Instant) -> (r: Option<String>)
    ensures
        opt_view(r) == rfc3339_text(t.secs as int, t.nanos as int),
{
    chrono::DateTime::from_timestamp(t.secs, t.nanos).map(|d| d.to_rfc3339())
}

/// Command to switch the current shell to a profile context.
pub struct SwitchCommand;

impl SwitchCommand {
    /// The checks before switching: the profile must exist by exact
    /// name; a sensitive one needs confirmation unless `yes`.
    pub fn check(store: &Store, policy: &ProfileSafetyPolicy, profile_name: &str, yes: bool) -> (r: SwitchCheck)
        requires
            store@.wf(),
        ensures
            ({
                let ps = store_profiles(store@);
                if !has_name(ps, profile_name@) {
                    r is NotFound
                } else {
                    let p = ps[name_pos(ps, profile_name@)];
                    if sensitive(policy@, profile_name@, profile_tags(p)) && !yes {
                        r matches SwitchCheck::Confirm(q) && q@ == p
                    } else {
                        r matches SwitchCheck::Proceed(q) && q@ == p
                    }
                }
            }),
    {
        match store.find_by_name(profile_name) {
            None => SwitchCheck::NotFound,
            Some(profile) => {
                let tags = profile.tag_list();
                if policy.is_sensitive_profile(profile_name, tags.as_slice()) && !yes {
                    SwitchCheck::Confirm(profile)
                } else {
                    SwitchCheck::Proceed(profile)
                }
            },
        }
    }

    /// Records that the profile was used at `timestamp`: its metadata
    /// with `last_used_at` set is stored under its name.
    pub fn record_use_at(store: &mut Store, profile_name: &str, profile: &Profile, timestamp: String)
        requires
            old(store)@.wf(),
        ensures
            final(store)@ == (StoreView {
                global: meta_insert(old(store)@.global, profile_name@, used_metadata(profile@, timestamp@)),
                ..old(store)@
            }),
            final(store)@.wf(),
    {
        let mut meta = match &profile.metadata {
            Some(m) => m.duplicate(),
            None => Metadata::default(),
        };
        meta.last_used_at = Some(timestamp);
        store.save_metadata(profile_name, meta);
    }

    /// Records that the profile is used now (see `record_use_at`), with
    /// the clock's time as `chrono` writes it in RFC 3339.
    pub fn record_use(store: &mut Store, profile_name: &str, profile: &Profile)
        requires
            old(store)@.wf(),
        ensures
            exists|now: Instant|
                #[trigger] rfc3339_text(now.secs as int, now.nanos as int) is Some && final(store)@ == (StoreView {
                    global: meta_insert(
                        old(store)@.global,
                        profile_name@,
                        used_metadata(profile@, rfc3339_text(now.secs as int, now.nanos as int)->0),
                    ),
                    ..old(store)@
                }),
            final(store)@.wf(),
    {
        let now = utc_now();
        match format_rfc3339(now) {
            Some(text) => {
                Self::record_use_at(store, profile_name, profile, text);
                assert(rfc3339_text(now.secs as int, now.nanos as int) is Some);
            },
            // The clock's reading always has a text (see `utc_now`).
            None => {},
        }
    }

    /// The variables to set in the subshell (see `switch_env`).
    pub fn shell_env(profile: &Profile, profile_name: &str) -> (r: Vec<EnvVar>)
        ensures
            env_views(r@) == switch_env(profile@, profile_name@),
    {
        let mut r: Vec<EnvVar> = Vec::new();
        r.push(EnvVar { key: "AWS_PROFILE".to_string(), value: profile_name.to_string() });
        match &profile.metadata {
            Some(m) => match &m.region {
                Some(region) => {
                    r.push(EnvVar { key: "AWS_REGION".to_string(), value: region.clone() });
                },
                None => {},
            },
            None => {},
        }
        assert(env_views(r@) =~= switch_env(profile@, profile_name@));
        r
    }
}

} // verus!
