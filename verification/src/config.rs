//! The store: AWS profiles from the config and credentials files and
//! the environment, merged with the metadata kept by this tool.
use vstd::prelude::*;
use crate::error::AppError;
use crate::ini::{IniSection, IniSectionView, ini_sections, parse_ini, section_value, section_views, sections_agree};
use crate::metadata::{
    GlobalConfig, GlobalConfigView, MetaSeq, MetadataEntry, MetadataStore, entry_views, has_key,
    insert_entry, key_position, merge_local, merge_local_config, copy_entries, meta_insert, meta_keys_distinct, meta_lookup, meta_normalize,
    meta_remove, normalize_entries, remove_entry,
};
use crate::text::{has_prefix, chars_of, chars_start_with, string_of, str_eq};
use crate::types::{Metadata, opt_view, profile_aliases, views, Profile, ProfileView, ProfileSource, bare_profile, profile_views};

verus! {

/// `s` with every leading repetition of `p` removed (as
/// `str::trim_start_matches` does for a non-empty pattern).
pub open spec fn trim_prefix_all(s: Seq<char>, p: Seq<char>) -> Seq<char>
    decreases s.len(),
{
    if p.len() > 0 && has_prefix(s, p) {
        trim_prefix_all(s.subrange(p.len() as int, s.len() as int), p)
    } else {
        s
    }
}

/// Removes every leading repetition of `p` from `s`.
pub fn trim_start_matches(s: &str, p: &str) -> (r: String)
    ensures
        r@ == trim_prefix_all(s@, p@),
{
    let cs = chars_of(s);
    let cp = chars_of(p);
    if cp.len() == 0 {
        return string_of(cs.as_slice());
    }
    let mut rest = cs;
    loop
        invariant
            cp@ == p@,
            cp@.len() > 0,
            trim_prefix_all(rest@, p@) == trim_prefix_all(s@, p@),
        decreases rest@.len(),
    {
        if !chars_start_with(rest.as_slice(), cp.as_slice()) {
            return string_of(rest.as_slice());
        }
        let ghost before = rest@;
        let mut next: Vec<char> = Vec::new();
        let n = rest.len();
        let start = cp.len();
        for i in start..n
            invariant
                n == rest@.len(),
                start <= n,
                next@ == rest@.subrange(start as int, i as int),
        {
            next.push(rest[i]);
            assert(rest@.subrange(start as int, i as int).push(rest@[i as int]) == rest@.subrange(
                start as int,
                i + 1,
            ));
        }
        rest = next;
    }
}

/// The profile that a section of the AWS config file describes:
/// `[default]` and `[profile NAME]` sections name profiles, other
/// sections (such as `[sso-session ...]`) do not.
pub open spec fn config_section_profile(s: IniSectionView) -> Option<ProfileView> {
    let name = if s.name == "default"@ {
        Some("default"@)
    } else if has_prefix(s.name, "profile "@) {
        Some(trim_prefix_all(s.name, "profile "@))
    } else {
        None
    };
    match name {
        Some(n) => Some(
            ProfileView {
                name: n,
                region: section_value(s, "region"@),
                output: section_value(s, "output"@),
                sso_session: section_value(s, "sso_session"@),
                sso_start_url: section_value(s, "sso_start_url"@),
                metadata: None,
                source: ProfileSource::Config,
            },
        ),
        None => None,
    }
}

/// The profiles of the AWS config file's sections, in section order.
pub open spec fn config_profiles(secs: Seq<IniSectionView>) -> Seq<ProfileView>
    decreases secs.len(),
{
    if secs.len() == 0 {
        Seq::empty()
    } else {
        let prev = config_profiles(secs.drop_last());
        match config_section_profile(secs.last()) {
            Some(p) => prev.push(p),
            None => prev,
        }
    }
}

/// Each `[default]` or `[profile NAME]` section of the AWS config file
/// gives a profile named `default` or `NAME` (every leading `profile `
/// removed) that carries the section's `region`, `output`, `sso_session`
/// and `sso_start_url` values and no metadata; every profile of the file
/// comes from such a section, and other sections give none.
pub proof fn law_config_sections_give_profiles(secs: Seq<IniSectionView>)
    ensures
        forall|i: int|
            #![trigger secs[i]]
            0 <= i < secs.len() && (secs[i].name == "default"@ || has_prefix(secs[i].name, "profile "@))
                ==> config_profiles(secs).contains(
                (ProfileView {
                    name: if secs[i].name == "default"@ {
                        "default"@
                    } else {
                        trim_prefix_all(secs[i].name, "profile "@)
                    },
                    region: section_value(secs[i], "region"@),
                    output: section_value(secs[i], "output"@),
                    sso_session: section_value(secs[i], "sso_session"@),
                    sso_start_url: section_value(secs[i], "sso_start_url"@),
                    metadata: None,
                    source: ProfileSource::Config,
                }),
            ),
        forall|j: int|
            #![trigger config_profiles(secs)[j]]
            0 <= j < config_profiles(secs).len() ==> exists|i: int|
                #![trigger secs[i]]
                0 <= i < secs.len() && (secs[i].name == "default"@ || has_prefix(secs[i].name, "profile "@))
                    && config_profiles(secs)[j] == (ProfileView {
                    name: if secs[i].name == "default"@ {
                        "default"@
                    } else {
                        trim_prefix_all(secs[i].name, "profile "@)
                    },
                    region: section_value(secs[i], "region"@),
                    output: section_value(secs[i], "output"@),
                    sso_session: section_value(secs[i], "sso_session"@),
                    sso_start_url: section_value(secs[i], "sso_start_url"@),
                    metadata: None,
                    source: ProfileSource::Config,
                }),
    decreases secs.len(),
{
    if secs.len() > 0 {
        let init = secs.drop_last();
        let last = secs.last();
        law_config_sections_give_profiles(init);
        let prev = config_profiles(init);
        let all = config_profiles(secs);
        assert forall|i: int|
            #![trigger secs[i]]
            0 <= i < secs.len() && (secs[i].name == "default"@ || has_prefix(secs[i].name, "profile "@))
                implies all.contains(
                (ProfileView {
                    name: if secs[i].name == "default"@ {
                        "default"@
                    } else {
                        trim_prefix_all(secs[i].name, "profile "@)
                    },
                    region: section_value(secs[i], "region"@),
                    output: section_value(secs[i], "output"@),
                    sso_session: section_value(secs[i], "sso_session"@),
                    sso_start_url: section_value(secs[i], "sso_start_url"@),
                    metadata: None,
                    source: ProfileSource::Config,
                }),
            ) by {
            if i < secs.len() - 1 {
                assert(init[i] == secs[i]);
                let q = choose|k: int| 0 <= k < prev.len() && prev[k] == (ProfileView {
                    name: if init[i].name == "default"@ {
                        "default"@
                    } else {
                        trim_prefix_all(init[i].name, "profile "@)
                    },
                    region: section_value(init[i], "region"@),
                    output: section_value(init[i], "output"@),
                    sso_session: section_value(init[i], "sso_session"@),
                    sso_start_url: section_value(init[i], "sso_start_url"@),
                    metadata: None,
                    source: ProfileSource::Config,
                });
                assert(all[q] == prev[q]);
            } else {
                assert(secs[i] == last);
                assert(all[prev.len() as int] == config_section_profile(last)->0);
            }
        }
        assert forall|j: int|
            #![trigger all[j]]
            0 <= j < all.len() implies exists|i: int|
                #![trigger secs[i]]
                0 <= i < secs.len() && (secs[i].name == "default"@ || has_prefix(secs[i].name, "profile "@))
                    && all[j] == (ProfileView {
                    name: if secs[i].name == "default"@ {
                        "default"@
                    } else {
                        trim_prefix_all(secs[i].name, "profile "@)
                    },
                    region: section_value(secs[i], "region"@),
                    output: section_value(secs[i], "output"@),
                    sso_session: section_value(secs[i], "sso_session"@),
                    sso_start_url: section_value(secs[i], "sso_start_url"@),
                    metadata: None,
                    source: ProfileSource::Config,
                }) by {
            if j < prev.len() {
                assert(all[j] == prev[j]);
                let i = choose|i: int|
                    #![trigger init[i]]
                    0 <= i < init.len() && (init[i].name == "default"@ || has_prefix(init[i].name, "profile "@))
                        && prev[j] == (ProfileView {
                        name: if init[i].name == "default"@ {
                            "default"@
                        } else {
                            trim_prefix_all(init[i].name, "profile "@)
                        },
                        region: section_value(init[i], "region"@),
                        output: section_value(init[i], "output"@),
                        sso_session: section_value(init[i], "sso_session"@),
                        sso_start_url: section_value(init[i], "sso_start_url"@),
                        metadata: None,
                        source: ProfileSource::Config,
                    });
                assert(secs[i] == init[i]);
            } else {
                assert(config_section_profile(last) is Some);
                assert(secs[secs.len() - 1] == last);
            }
        }
    }
}

/// The profile that a section of the credentials file names: every
/// section does, by its name.
pub open spec fn credentials_profile(name: Seq<char>) -> ProfileView {
    ProfileView { source: ProfileSource::Credentials, ..bare_profile(name) }
}

/// The profiles of the credentials file's sections, in section order.
pub open spec fn credentials_profiles(secs: Seq<IniSectionView>) -> Seq<ProfileView>
    decreases secs.len(),
{
    if secs.len() == 0 {
        Seq::empty()
    } else {
        credentials_profiles(secs.drop_last()).push(credentials_profile(secs.last().name))
    }
}

/// The keys of each section are distinct.
pub open spec fn keys_distinct(secs: Seq<IniSectionView>) -> bool {
    forall|k: int, i: int, j: int|
        0 <= k < secs.len() && 0 <= i < j < secs[k].entries.len() ==> secs[k].entries[i].0
            != secs[k].entries[j].0
}

/// The profile described by one section of the AWS config file.
fn profile_from_config_section(s: &IniSection) -> (r: Option<Profile>)
    requires
        forall|i: int, j: int| 0 <= i < j < s@.entries.len() ==> s@.entries[i].0 != s@.entries[j].0,
    ensures
        match r {
            Some(p) => config_section_profile(s@) == Some(p@),
            None => config_section_profile(s@) is None,
        },
{
    let name = if str_eq(s.name.as_str(), "default") {
        "default".to_string()
    } else {
        let cn = chars_of(s.name.as_str());
        let cp = chars_of("profile ");
        if chars_start_with(cn.as_slice(), cp.as_slice()) {
            trim_start_matches(s.name.as_str(), "profile ")
        } else {
            return None;
        }
    };
    let mut p = Profile::new(name);
    p.region = s.value("region");
    p.output = s.value("output");
    p.sso_session = s.value("sso_session");
    p.sso_start_url = s.value("sso_start_url");
    Some(p)
}

/// The profiles of the AWS config file's sections.
pub fn load_aws_config(secs: &Vec<IniSection>) -> (r: Vec<Profile>)
    requires
        keys_distinct(section_views(secs@)),
    ensures
        profile_views(r@) == config_profiles(section_views(secs@)),
{
    let mut r: Vec<Profile> = Vec::new();
    let n = secs.len();
    let ghost sv = section_views(secs@);
    for i in 0..n
        invariant
            n == secs@.len(),
            sv == section_views(secs@),
            keys_distinct(sv),
            profile_views(r@) == config_profiles(sv.take(i as int)),
    {
        assert(sv.take(i + 1).drop_last() =~= sv.take(i as int));
        assert(sv[i as int] == secs@[i as int]@);
        match profile_from_config_section(&secs[i]) {
            Some(p) => {
                r.push(p);
                assert(profile_views(r@) =~= profile_views(r@.drop_last()).push(r@.last()@));
            },
            None => {},
        }
    }
    assert(sv.take(n as int) =~= sv);
    r
}

/// The profiles of the credentials file's sections.
pub fn load_aws_credentials(secs: &Vec<IniSection>) -> (r: Vec<Profile>)
    ensures
        profile_views(r@) == credentials_profiles(section_views(secs@)),
{
    let mut r: Vec<Profile> = Vec::new();
    let n = secs.len();
    let ghost sv = section_views(secs@);
    for i in 0..n
        invariant
            n == secs@.len(),
            sv == section_views(secs@),
            profile_views(r@) == credentials_profiles(sv.take(i as int)),
    {
        let mut p = Profile::new(secs[i].name.clone());
        p.source = ProfileSource::Credentials;
        assert(p@ == credentials_profile(sv[i as int].name));
        r.push(p);
        assert(sv.take(i + 1).drop_last() =~= sv.take(i as int));
        assert(profile_views(r@) =~= profile_views(r@.drop_last()).push(r@.last()@));
    }
    assert(sv.take(n as int) =~= sv);
    r
}


/// No two profiles share a name.
pub open spec fn names_distinct(ps: Seq<ProfileView>) -> bool {
    forall|i: int, j: int| 0 <= i < j < ps.len() ==> ps[i].name != ps[j].name
}

/// Some profile has this name.
pub open spec fn has_name(ps: Seq<ProfileView>, n: Seq<char>) -> bool {
    exists|i: int| 0 <= i < ps.len() && ps[i].name == n
}

/// The position of the profile with this name (meaningful when
/// `has_name` holds and names are distinct).
pub open spec fn name_pos(ps: Seq<ProfileView>, n: Seq<char>) -> int {
    choose|i: int| 0 <= i < ps.len() && ps[i].name == n
}

/// The profile with a different source.
pub open spec fn with_source(p: ProfileView, s: ProfileSource) -> ProfileView {
    ProfileView { source: s, ..p }
}

/// Adds `p`, replacing a profile of the same name in place.
pub open spec fn upsert_replace(ps: Seq<ProfileView>, p: ProfileView) -> Seq<ProfileView> {
    if has_name(ps, p.name) {
        ps.update(name_pos(ps, p.name), p)
    } else {
        ps.push(p)
    }
}

/// Adds `p`, or marks the profile of the same name as found in several
/// sources (keeping its fields).
pub open spec fn upsert_merge(ps: Seq<ProfileView>, p: ProfileView) -> Seq<ProfileView> {
    if has_name(ps, p.name) {
        let i = name_pos(ps, p.name);
        ps.update(i, with_source(ps[i], ProfileSource::Merged))
    } else {
        ps.push(p)
    }
}

/// `upsert_replace` of each item in turn.
pub open spec fn replace_all(ps: Seq<ProfileView>, items: Seq<ProfileView>) -> Seq<ProfileView>
    decreases items.len(),
{
    if items.len() == 0 {
        ps
    } else {
        upsert_replace(replace_all(ps, items.drop_last()), items.last())
    }
}

/// `upsert_merge` of each item in turn.
pub open spec fn merge_all(ps: Seq<ProfileView>, items: Seq<ProfileView>) -> Seq<ProfileView>
    decreases items.len(),
{
    if items.len() == 0 {
        ps
    } else {
        upsert_merge(merge_all(ps, items.drop_last()), items.last())
    }
}

/// A profile that only the environment names.
pub open spec fn env_profile(name: Seq<char>) -> ProfileView {
    ProfileView { source: ProfileSource::Env, ..bare_profile(name) }
}

/// The name under which raw credentials in the environment appear.
pub open spec fn env_vars_name() -> Seq<char> {
    "env-vars"@
}

/// The profiles of all AWS sources: the config file's profiles (a later
/// section of the same name replaces an earlier one), then those of the
/// credentials file, then `AWS_PROFILE`, then the `env-vars` profile when
/// `AWS_ACCESS_KEY_ID` is set; a name already present is marked as found
/// in several sources.
pub open spec fn aws_profiles(
    config: Seq<ProfileView>,
    creds: Seq<ProfileView>,
    env_name: Option<Seq<char>>,
    access_key: bool,
) -> Seq<ProfileView> {
    let s1 = replace_all(Seq::empty(), config);
    let s2 = merge_all(s1, creds);
    let s3 = match env_name {
        Some(e) => upsert_merge(s2, env_profile(e)),
        None => s2,
    };
    if access_key {
        upsert_merge(s3, env_profile(env_vars_name()))
    } else {
        s3
    }
}

/// Upserts keep names distinct.
pub proof fn lemma_upserts_keep_distinct(ps: Seq<ProfileView>, p: ProfileView)
    requires
        names_distinct(ps),
    ensures
        names_distinct(upsert_replace(ps, p)),
        names_distinct(upsert_merge(ps, p)),
        has_name(upsert_replace(ps, p), p.name),
        has_name(upsert_merge(ps, p), p.name),
{
    if has_name(ps, p.name) {
        let i = name_pos(ps, p.name);
        assert(upsert_replace(ps, p)[i].name == p.name);
        assert(upsert_merge(ps, p)[i].name == p.name);
    } else {
        assert(upsert_replace(ps, p)[ps.len() as int].name == p.name);
        assert(upsert_merge(ps, p)[ps.len() as int].name == p.name);
    }
}

/// Folds of upserts keep names distinct.
pub proof fn lemma_folds_keep_distinct(ps: Seq<ProfileView>, items: Seq<ProfileView>)
    requires
        names_distinct(ps),
    ensures
        names_distinct(replace_all(ps, items)),
        names_distinct(merge_all(ps, items)),
    decreases items.len(),
{
    if items.len() > 0 {
        lemma_folds_keep_distinct(ps, items.drop_last());
        lemma_upserts_keep_distinct(replace_all(ps, items.drop_last()), items.last());
        lemma_upserts_keep_distinct(merge_all(ps, items.drop_last()), items.last());
    }
}

/// The position of the profile with the given name, if any.
fn position_of(ps: &Vec<Profile>, name: &str) -> (r: Option<usize>)
    requires
        names_distinct(profile_views(ps@)),
    ensures
        match r {
            Some(i) => has_name(profile_views(ps@), name@) && i == name_pos(
                profile_views(ps@),
                name@,
            ) && i < ps@.len(),
            None => !has_name(profile_views(ps@), name@),
        },
{
    let n = ps.len();
    let ghost pv = profile_views(ps@);
    for i in 0..n
        invariant
            n == ps@.len(),
            pv == profile_views(ps@),
            names_distinct(pv),
            forall|j: int| 0 <= j < i ==> pv[j].name != name@,
    {
        if str_eq(ps[i].name.as_str(), name) {
            assert(pv[i as int].name == name@);
            let ghost c = name_pos(pv, name@);
            assert(c == i);
            return Some(i);
        }
    }
    None
}

/// Adds `p`, replacing a profile of the same name.
fn upsert_replace_exec(ps: &mut Vec<Profile>, p: Profile)
    requires
        names_distinct(profile_views(old(ps)@)),
    ensures
        profile_views(final(ps)@) == upsert_replace(profile_views(old(ps)@), p@),
{
    let ghost before = profile_views(ps@);
    match position_of(ps, p.name.as_str()) {
        Some(i) => {
            ps[i] = p;
            assert(profile_views(ps@) =~= before.update(i as int, p@));
        },
        None => {
            ps.push(p);
            assert(profile_views(ps@) =~= before.push(p@));
        },
    }
}

/// Adds `p`, or marks the existing profile of that name as merged.
fn upsert_merge_exec(ps: &mut Vec<Profile>, p: Profile)
    requires
        names_distinct(profile_views(old(ps)@)),
    ensures
        profile_views(final(ps)@) == upsert_merge(profile_views(old(ps)@), p@),
{
    let ghost before = profile_views(ps@);
    match position_of(ps, p.name.as_str()) {
        Some(i) => {
            let mut q = ps[i].duplicate();
            q.source = ProfileSource::Merged;
            ps[i] = q;
            assert(profile_views(ps@) =~= before.update(
                i as int,
                with_source(before[i as int], ProfileSource::Merged),
            ));
        },
        None => {
            ps.push(p);
            assert(profile_views(ps@) =~= before.push(p@));
        },
    }
}

/// Merges the profiles of all AWS sources (see `aws_profiles`).
pub fn merge_aws_profiles(
    config: &Vec<Profile>,
    creds: &Vec<Profile>,
    env_name: &Option<String>,
    access_key: bool,
) -> (r: Vec<Profile>)
    ensures
        profile_views(r@) == aws_profiles(
            profile_views(config@),
            profile_views(creds@),
            opt_view(*env_name),
            access_key,
        ),
        names_distinct(profile_views(r@)),
{
    let mut r: Vec<Profile> = Vec::new();
    let ghost cv = profile_views(config@);
    let ghost rv = profile_views(creds@);
    assert(profile_views(r@) =~= Seq::<ProfileView>::empty());
    let n = config.len();
    for i in 0..n
        invariant
            n == config@.len(),
            cv == profile_views(config@),
            profile_views(r@) == replace_all(Seq::empty(), cv.take(i as int)),
            names_distinct(profile_views(r@)),
    {
        proof {
            lemma_upserts_keep_distinct(profile_views(r@), cv[i as int]);
        }
        upsert_replace_exec(&mut r, config[i].duplicate());
        assert(cv.take(i + 1).drop_last() =~= cv.take(i as int));
    }
    assert(cv.take(n as int) =~= cv);
    let ghost s1 = profile_views(r@);
    let m = creds.len();
    for i in 0..m
        invariant
            m == creds@.len(),
            rv == profile_views(creds@),
            profile_views(r@) == merge_all(s1, rv.take(i as int)),
            names_distinct(profile_views(r@)),
    {
        proof {
            lemma_upserts_keep_distinct(profile_views(r@), rv[i as int]);
        }
        upsert_merge_exec(&mut r, creds[i].duplicate());
        assert(rv.take(i + 1).drop_last() =~= rv.take(i as int));
    }
    assert(rv.take(m as int) =~= rv);
    match env_name {
        Some(e) => {
            let mut p = Profile::new(e.clone());
            p.source = ProfileSource::Env;
            proof {
                lemma_upserts_keep_distinct(profile_views(r@), p@);
            }
            upsert_merge_exec(&mut r, p);
        },
        None => {},
    }
    if access_key {
        let mut p = Profile::new("env-vars".to_string());
        p.source = ProfileSource::Env;
        proof {
            lemma_upserts_keep_distinct(profile_views(r@), p@);
        }
        upsert_merge_exec(&mut r, p);
    }
    r
}


/// A profile with the metadata stored under its name attached.
pub open spec fn attach_one(p: ProfileView, m: MetaSeq) -> ProfileView {
    match meta_lookup(m, p.name) {
        Some(x) => ProfileView { metadata: Some(x), ..p },
        None => p,
    }
}

/// Profiles with their metadata attached.
pub open spec fn attach_metadata(ps: Seq<ProfileView>, m: MetaSeq) -> Seq<ProfileView> {
    ps.map_values(|p: ProfileView| attach_one(p, m))
}

/// View of a [`Store`]: what was read from each source.
pub struct StoreView {
    /// Profiles of the AWS config file, in section order.
    pub config: Seq<ProfileView>,
    /// Profiles of the AWS credentials file, in section order.
    pub creds: Seq<ProfileView>,
    /// The value of `AWS_PROFILE`, if set.
    pub env_name: Option<Seq<char>>,
    /// Whether `AWS_ACCESS_KEY_ID` is set.
    pub access_key: bool,
    /// Settings of the global metadata file.
    pub global_config: GlobalConfigView,
    /// Metadata of the global metadata file.
    pub global: MetaSeq,
    /// Metadata of the project's local metadata file, if one applies.
    pub local: Option<MetaSeq>,
}

impl StoreView {
    /// Names of each metadata source are distinct.
    pub open spec fn wf(self) -> bool {
        &&& meta_keys_distinct(self.global)
        &&& match self.local {
            Some(l) => meta_keys_distinct(l),
            None => true,
        }
    }
}

/// The metadata in effect: the global metadata with the local file merged
/// into it.
pub open spec fn effective_metadata(s: StoreView) -> MetaSeq {
    match s.local {
        Some(l) => merge_local(s.global, l),
        None => s.global,
    }
}

/// All profiles of the AWS sources, with their metadata attached.
pub open spec fn store_profiles(s: StoreView) -> Seq<ProfileView> {
    attach_metadata(aws_profiles(s.config, s.creds, s.env_name, s.access_key), effective_metadata(s))
}

/// The profile has this alias.
pub open spec fn has_alias(p: ProfileView, q: Seq<char>) -> bool {
    profile_aliases(p).contains(q)
}

/// The profiles that have this alias, in order.
pub open spec fn alias_matches(ps: Seq<ProfileView>, q: Seq<char>) -> Seq<ProfileView> {
    ps.filter(|p: ProfileView| has_alias(p, q))
}

/// How a name or alias resolves among profiles.
pub enum Resolution {
    /// To this profile.
    Found(ProfileView),
    /// To no profile.
    NotFound,
    /// To several profiles (by alias).
    Ambiguous,
}

/// Resolves a query: the profile of that exact name, else the one
/// profile that has it as an alias; none, or ambiguous when several have
/// the alias.
pub open spec fn resolve(ps: Seq<ProfileView>, q: Seq<char>) -> Resolution {
    if has_name(ps, q) {
        Resolution::Found(ps[name_pos(ps, q)])
    } else {
        let am = alias_matches(ps, q);
        if am.len() == 0 {
            Resolution::NotFound
        } else if am.len() == 1 {
            Resolution::Found(am[0])
        } else {
            Resolution::Ambiguous
        }
    }
}

/// A profile that is in an AWS source but has no metadata (the
/// `env-vars` profile excepted).
pub open spec fn is_untracked(p: ProfileView) -> bool {
    p.name != env_vars_name() && p.metadata is None
}

/// Names with metadata but no profile in any AWS source, in store order.
pub open spec fn orphan_names(m: MetaSeq, ps: Seq<ProfileView>) -> Seq<Seq<char>>
    decreases m.len(),
{
    if m.len() == 0 {
        Seq::empty()
    } else {
        let prev = orphan_names(m.drop_last(), ps);
        if has_name(ps, m.last().0) {
            prev
        } else {
            prev.push(m.last().0)
        }
    }
}

/// What the config text yields: the profiles of its sections (in the
/// order the parser listed them), or none when it is absent or does not
/// parse.
pub open spec fn config_from_text(text: Option<Seq<char>>, config: Seq<ProfileView>) -> bool {
    match text {
        Some(t) => match ini_sections(t) {
            Some(m) => exists|secs: Seq<IniSectionView>|
                sections_agree(secs, m) && config == config_profiles(secs),
            None => config == Seq::<ProfileView>::empty(),
        },
        None => config == Seq::<ProfileView>::empty(),
    }
}

/// What the credentials text yields (as `config_from_text`).
pub open spec fn creds_from_text(text: Option<Seq<char>>, creds: Seq<ProfileView>) -> bool {
    match text {
        Some(t) => match ini_sections(t) {
            Some(m) => exists|secs: Seq<IniSectionView>|
                sections_agree(secs, m) && creds == credentials_profiles(secs),
            None => creds == Seq::<ProfileView>::empty(),
        },
        None => creds == Seq::<ProfileView>::empty(),
    }
}

/// Status of synchronization between the AWS sources and the metadata.
pub struct SyncStatus {
    /// Profiles in the AWS config or credentials without metadata.
    pub untracked: Vec<Profile>,
    /// Names with metadata that no AWS source has.
    pub orphaned: Vec<String>,
}

/// Unified store of the AWS profiles and the metadata kept for them,
/// as read from the files and the environment.
pub struct Store {
    config_profiles: Vec<Profile>,
    credential_profiles: Vec<Profile>,
    env_profile: Option<String>,
    env_access_key: bool,
    global_config: GlobalConfig,
    global: Vec<MetadataEntry>,
    local: Option<Vec<MetadataEntry>>,
}

impl View for Store {
    type V = StoreView;

    closed spec fn view(&self) -> StoreView {
        StoreView {
            config: profile_views(self.config_profiles@),
            creds: profile_views(self.credential_profiles@),
            env_name: opt_view(self.env_profile),
            access_key: self.env_access_key,
            global_config: self.global_config@,
            global: entry_views(self.global@),
            local: match self.local {
                Some(l) => Some(entry_views(l@)),
                None => None,
            },
        }
    }
}

/// Keys of each section of a parse are distinct.
proof fn lemma_agree_keys_distinct(secs: Seq<IniSectionView>, m: Map<Seq<char>, Map<Seq<char>, Option<Seq<char>>>>)
    requires
        sections_agree(secs, m),
    ensures
        keys_distinct(secs),
{
    assert forall|k: int, i: int, j: int|
        0 <= k < secs.len() && 0 <= i < j < secs[k].entries.len() implies secs[k].entries[i].0
        != secs[k].entries[j].0 by {
        assert(m.contains_key(secs[k].name));
    }
}

/// Attaching metadata keeps the names.
pub proof fn lemma_attach_names(ps: Seq<ProfileView>, m: MetaSeq)
    ensures
        attach_metadata(ps, m).len() == ps.len(),
        forall|i: int| 0 <= i < ps.len() ==> #[trigger] attach_metadata(ps, m)[i].name == ps[i].name,
        names_distinct(ps) ==> names_distinct(attach_metadata(ps, m)),
        forall|n: Seq<char>| has_name(ps, n) == has_name(attach_metadata(ps, m), n),
{
    let a = attach_metadata(ps, m);
    assert forall|n: Seq<char>| has_name(ps, n) == has_name(a, n) by {
        if has_name(ps, n) {
            let i = name_pos(ps, n);
            assert(a[i].name == n);
        }
        if has_name(a, n) {
            let i = name_pos(a, n);
            assert(ps[i].name == n);
        }
    }
}

/// The profiles of an AWS source text.
fn profiles_of_text(text: Option<String>, config: bool) -> (r: Vec<Profile>)
    ensures
        config ==> config_from_text(opt_view(text), profile_views(r@)),
        !config ==> creds_from_text(opt_view(text), profile_views(r@)),
{
    match text {
        Some(t) => {
            let ghost tv = t@;
            match parse_ini(t) {
                Some(secs) => {
                    proof {
                        lemma_agree_keys_distinct(section_views(secs@), ini_sections(tv)->0);
                    }
                    if config {
                        load_aws_config(&secs)
                    } else {
                        load_aws_credentials(&secs)
                    }
                },
                None => {
                    let r: Vec<Profile> = Vec::new();
                    assert(profile_views(r@) =~= Seq::<ProfileView>::empty());
                    r
                },
            }
        },
        None => {
            let r: Vec<Profile> = Vec::new();
            assert(profile_views(r@) =~= Seq::<ProfileView>::empty());
            r
        },
    }
}

impl Store {
    /// Builds the store from what was read: the texts of the AWS config
    /// and credentials files (`None` when a file could not be read), the
    /// values of `AWS_PROFILE` and whether `AWS_ACCESS_KEY_ID` is set, the
    /// global metadata file and the project's local one (if it applies).
    /// Each text is parsed as INI; one that does not parse yields no
    /// profiles. A metadata name given twice keeps its last entry.
    pub fn from_sources(
        config_text: Option<String>,
        credentials_text: Option<String>,
        env_profile: Option<String>,
        env_access_key: bool,
        global: MetadataStore,
        local: Option<MetadataStore>,
    ) -> (r: Store)
        ensures
            config_from_text(opt_view(config_text), r@.config),
            creds_from_text(opt_view(credentials_text), r@.creds),
            r@.env_name == opt_view(env_profile),
            r@.access_key == env_access_key,
            r@.global_config == global.config@,
            r@.global == meta_normalize(entry_views(global.profiles@)),
            r@.local == match local {
                Some(l) => Some(meta_normalize(entry_views(l.profiles@))),
                None => None,
            },
            r@.wf(),
    {
        let config_profiles = profiles_of_text(config_text, true);
        let credential_profiles = profiles_of_text(credentials_text, false);
        let g = normalize_entries(&global.profiles);
        let l = match &local {
            Some(ls) => Some(normalize_entries(&ls.profiles)),
            None => None,
        };
        Store {
            config_profiles,
            credential_profiles,
            env_profile,
            env_access_key,
            global_config: global.config,
            global: g,
            local: l,
        }
    }

    /// The metadata in effect (global merged with local).
    fn metadata_map(&self) -> (r: Vec<MetadataEntry>)
        requires
            self@.wf(),
        ensures
            entry_views(r@) == effective_metadata(self@),
            meta_keys_distinct(entry_views(r@)),
    {
        let mut g = copy_entries(&self.global);
        match &self.local {
            Some(l) => {
                merge_local_config(&mut g, l);
            },
            None => {},
        }
        g
    }

    /// Loads all profiles: the AWS sources merged (see `aws_profiles`),
    /// each with the metadata in effect under its name.
    pub fn load_profiles(&self) -> (r: Vec<Profile>)
        requires
            self@.wf(),
        ensures
            profile_views(r@) == store_profiles(self@),
            names_distinct(profile_views(r@)),
    {
        let mut ps = merge_aws_profiles(
            &self.config_profiles,
            &self.credential_profiles,
            &self.env_profile,
            self.env_access_key,
        );
        let meta = self.metadata_map();
        let ghost base = profile_views(ps@);
        let ghost m = entry_views(meta@);
        let n = ps.len();
        for i in 0..n
            invariant
                n == ps@.len(),
                base.len() == n,
                m == entry_views(meta@),
                meta_keys_distinct(m),
                forall|j: int| 0 <= j < i ==> #[trigger] profile_views(ps@)[j] == attach_one(base[j], m),
                forall|j: int| i <= j < n ==> #[trigger] profile_views(ps@)[j] == base[j],
        {
            let ghost cur = profile_views(ps@);
            assert(cur[i as int] == base[i as int]);
            assert(cur[i as int] == ps@[i as int]@);
            match key_position(&meta, ps[i].name.as_str()) {
                Some(k) => {
                    let md = meta[k].metadata.duplicate();
                    let mut p = ps[i].duplicate();
                    p.metadata = Some(md);
                    ps[i] = p;
                    assert(profile_views(ps@) =~= cur.update(i as int, attach_one(base[i as int], m)));
                },
                None => {
                    assert(attach_one(base[i as int], m) == base[i as int]);
                },
            }
        }
        proof {
            assert(profile_views(ps@) =~= attach_metadata(base, m));
            lemma_attach_names(base, m);
        }
        ps
    }

    /// Finds a profile by exact name.
    pub fn find_by_name(&self, name: &str) -> (r: Option<Profile>)
        requires
            self@.wf(),
        ensures
            match r {
                Some(p) => has_name(store_profiles(self@), name@) && p@ == store_profiles(
                    self@,
                )[name_pos(store_profiles(self@), name@)],
                None => !has_name(store_profiles(self@), name@),
            },
    {
        let ps = self.load_profiles();
        match position_of(&ps, name) {
            Some(i) => Some(ps[i].duplicate()),
            None => None,
        }
    }

    /// Finds a profile by exact name, or else by an alias that exactly one
    /// profile has. An alias that several profiles have is an error.
    pub fn find_by_name_or_alias(&self, query: &str) -> (r: Result<Option<Profile>, AppError>)
        requires
            self@.wf(),
        ensures
            match resolve(store_profiles(self@), query@) {
                Resolution::Found(p) => r matches Ok(Some(x)) && x@ == p,
                Resolution::NotFound => r matches Ok(None),
                Resolution::Ambiguous => r matches Err(AppError::AmbiguousProfile(s)) && s@ == query@,
            },
    {
        let ps = self.load_profiles();
        let ghost pv = profile_views(ps@);
        match position_of(&ps, query) {
            Some(i) => { return Ok(Some(ps[i].duplicate())); },
            None => {},
        }
        let mut matched: Vec<Profile> = Vec::new();
        let n = ps.len();
        for i in 0..n
            invariant
                n == ps@.len(),
                pv == profile_views(ps@),
                profile_views(matched@) == pv.take(i as int).filter(|p: ProfileView| has_alias(p, query@)),
        {
            let has = match &ps[i].metadata {
                Some(m) => crate::types::list_contains(&m.aliases, query),
                None => false,
            };
            proof {
                assert(pv.take(i + 1) =~= pv.take(i as int).push(pv[i as int]));
                pv.take(i as int).lemma_filter_push(pv[i as int], |p: ProfileView| has_alias(p, query@));
            }
            if has {
                matched.push(ps[i].duplicate());
                assert(profile_views(matched@) =~= profile_views(matched@.drop_last()).push(matched@.last()@));
            }
        }
        assert(pv.take(n as int) =~= pv);
        if matched.len() == 0 {
            Ok(None)
        } else if matched.len() == 1 {
            Ok(Some(matched[0].duplicate()))
        } else {
            Err(AppError::AmbiguousProfile(query.to_string()))
        }
    }

    /// Compares the AWS sources with the metadata in effect: profiles
    /// without metadata (untracked, `env-vars` excepted) and metadata
    /// names without a profile (orphaned).
    pub fn check_sync_status(&self) -> (r: SyncStatus)
        requires
            self@.wf(),
        ensures
            profile_views(r.untracked@) == store_profiles(self@).filter(|p: ProfileView| is_untracked(p)),
            profile_views(r.untracked@) == store_profiles(self@).filter(
                |p: ProfileView| p.name != "env-vars"@ && p.metadata is None,
            ),
            views(r.orphaned@) == orphan_names(effective_metadata(self@), store_profiles(self@)),
    {
        let ps = self.load_profiles();
        let meta = self.metadata_map();
        let ghost pv = profile_views(ps@);
        let ghost mv = entry_views(meta@);
        let mut untracked: Vec<Profile> = Vec::new();
        let n = ps.len();
        for i in 0..n
            invariant
                n == ps@.len(),
                pv == profile_views(ps@),
                profile_views(untracked@) == pv.take(i as int).filter(|p: ProfileView| is_untracked(p)),
        {
            let skip = str_eq(ps[i].name.as_str(), "env-vars");
            proof {
                assert(pv.take(i + 1) =~= pv.take(i as int).push(pv[i as int]));
                pv.take(i as int).lemma_filter_push(pv[i as int], |p: ProfileView| is_untracked(p));
            }
            if !skip && ps[i].metadata.is_none() {
                untracked.push(ps[i].duplicate());
                assert(profile_views(untracked@) =~= profile_views(untracked@.drop_last()).push(untracked@.last()@));
            }
        }
        assert(pv.take(n as int) =~= pv);
        assert((|p: ProfileView| is_untracked(p)) =~= (|p: ProfileView| p.name != "env-vars"@ && p.metadata is None));
        let mut orphaned: Vec<String> = Vec::new();
        let m = meta.len();
        for i in 0..m
            invariant
                m == meta@.len(),
                mv == entry_views(meta@),
                pv == profile_views(ps@),
                names_distinct(pv),
                views(orphaned@) == orphan_names(mv.take(i as int), pv),
        {
            let present = position_of(&ps, meta[i].name.as_str()).is_some();
            assert(mv.take(i + 1).drop_last() =~= mv.take(i as int));
            if !present {
                orphaned.push(meta[i].name.clone());
                assert(views(orphaned@) =~= views(orphaned@.drop_last()).push(orphaned@.last()@));
            }
        }
        assert(mv.take(m as int) =~= mv);
        SyncStatus { untracked, orphaned }
    }

    /// The global settings of the metadata file.
    pub fn get_global_config(&self) -> (r: GlobalConfig)
        ensures
            r@ == self@.global_config,
    {
        self.global_config.duplicate()
    }

    /// Stores metadata for a profile in the global metadata, replacing
    /// what was stored under that name.
    pub fn save_metadata(&mut self, profile_name: &str, metadata: Metadata)
        requires
            old(self)@.wf(),
        ensures
            final(self)@ == (StoreView {
                global: meta_insert(old(self)@.global, profile_name@, metadata@),
                ..old(self)@
            }),
            final(self)@.wf(),
    {
        insert_entry(&mut self.global, profile_name.to_string(), metadata);
    }

    /// Deletes the global metadata of a profile; tells whether there was
    /// any.
    pub fn delete_metadata(&mut self, profile_name: &str) -> (r: bool)
        requires
            old(self)@.wf(),
        ensures
            r == has_key(old(self)@.global, profile_name@),
            final(self)@ == (StoreView { global: meta_remove(old(self)@.global, profile_name@), ..old(self)@ }),
            final(self)@.wf(),
    {
        remove_entry(&mut self.global, profile_name)
    }

    /// The global metadata file's contents, to be written back.
    pub fn global_store(&self) -> (r: MetadataStore)
        ensures
            r.config@ == self@.global_config,
            entry_views(r.profiles@) == self@.global,
    {
        let g = copy_entries(&self.global);
        MetadataStore { config: self.global_config.duplicate(), profiles: g }
    }
}

} // verus!
