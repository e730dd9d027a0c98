//! The profile model: an AWS profile, where it was found, and the
//! metadata that this tool keeps for it.
use vstd::prelude::*;

verus! {

/// The character view of each string of a sequence.
pub open spec fn views(v: Seq<String>) -> Seq<Seq<char>> {
    v.map_values(|s: String| s@)
}

/// The character view of an optional string.
pub open spec fn opt_view(o: Option<String>) -> Option<Seq<char>> {
    match o {
        Some(s) => Some(s@),
        None => None,
    }
}

/// A copy of a vector of strings.
pub fn copy_strings(v: &Vec<String>) -> (r: Vec<String>)
    ensures
        r@ == v@,
{
    let mut r: Vec<String> = Vec::new();
    let n = v.len();
    for i in 0..n
        invariant
            n == v@.len(),
            r@ == v@.take(i as int),
    {
        r.push(v[i].clone());
        assert(v@.take(i as int).push(v@[i as int]) == v@.take(i + 1));
    }
    assert(v@.take(n as int) == v@);
    r
}

/// Whether one of the strings equals `s`.
pub fn list_contains(v: &Vec<String>, s: &str) -> (r: bool)
    ensures
        r == views(v@).contains(s@),
{
    let n = v.len();
    let ghost vv = views(v@);
    for i in 0..n
        invariant
            n == v@.len(),
            vv == views(v@),
            forall|j: int| 0 <= j < i ==> vv[j] != s@,
    {
        if crate::text::str_eq(v[i].as_str(), s) {
            assert(vv[i as int] == s@);
            return true;
        }
    }
    false
}

/// A copy of an optional string.
pub fn copy_opt(o: &Option<String>) -> (r: Option<String>)
    ensures
        r == *o,
{
    match o {
        Some(s) => Some(s.clone()),
        None => None,
    }
}

/// Source of a profile.
#[derive(Debug, Clone, Copy, PartialEq, Eq, Hash, Structural)]
pub enum ProfileSource {
    /// Loaded from AWS config file.
    Config,
    /// Loaded from AWS credentials file.
    Credentials,
    /// Loaded from environment variables.
    Env,
    /// Present in multiple sources.
    Merged,
}

impl Default for ProfileSource {
    fn default() -> (r: Self)
        ensures
            r == ProfileSource::Config,
    {
        ProfileSource::Config
    }
}

/// Extended metadata for a profile, stored in the metadata file.
#[derive(Debug, Clone, PartialEq)]
pub struct Metadata {
    /// Alternative names for the profile.
    pub aliases: Vec<String>,
    /// Tags for categorization (e.g. "production", "team-a").
    pub tags: Vec<String>,
    /// A human-readable note.
    pub note: Option<String>,
    /// A region that takes precedence over the AWS config.
    pub region: Option<String>,
    /// When this profile was last switched to (RFC 3339 text).
    pub last_used_at: Option<String>,
}

/// Mathematical view of [`Metadata`].
pub struct MetadataView {
    pub aliases: Seq<Seq<char>>,
    pub tags: Seq<Seq<char>>,
    pub note: Option<Seq<char>>,
    pub region: Option<Seq<char>>,
    pub last_used_at: Option<Seq<char>>,
}

impl MetadataView {
    /// Metadata with no aliases, tags, note, region or timestamp.
    pub open spec fn empty() -> MetadataView {
        MetadataView {
            aliases: Seq::empty(),
            tags: Seq::empty(),
            note: None,
            region: None,
            last_used_at: None,
        }
    }
}

impl View for Metadata {
    type V = MetadataView;

    open spec fn view(&self) -> MetadataView {
        MetadataView {
            aliases: views(self.aliases@),
            tags: views(self.tags@),
            note: opt_view(self.note),
            region: opt_view(self.region),
            last_used_at: opt_view(self.last_used_at),
        }
    }
}

impl Default for Metadata {
    fn default() -> (r: Self)
        ensures
            r@ == MetadataView::empty(),
    {
        let r = Metadata {
            aliases: Vec::new(),
            tags: Vec::new(),
            note: None,
            region: None,
            last_used_at: None,
        };
        assert(r@.aliases =~= Seq::<Seq<char>>::empty());
        assert(r@.tags =~= Seq::<Seq<char>>::empty());
        r
    }
}

impl Metadata {
    /// A copy of this metadata.
    pub fn duplicate(&self) -> (r: Metadata)
        ensures
            r@ == self@,
    {
        Metadata {
            aliases: copy_strings(&self.aliases),
            tags: copy_strings(&self.tags),
            note: copy_opt(&self.note),
            region: copy_opt(&self.region),
            last_used_at: copy_opt(&self.last_used_at),
        }
    }
}

/// An AWS profile found in the AWS config or credentials file, or in
/// the environment.
#[derive(Debug, Clone, PartialEq)]
pub struct Profile {
    /// The name of the profile (e.g. "default", "prod").
    pub name: String,
    /// The region configured for this profile, if any.
    pub region: Option<String>,
    /// The output format, if configured.
    pub output: Option<String>,
    /// The SSO session name, if the profile uses AWS SSO.
    pub sso_session: Option<String>,
    /// The SSO start URL, if present.
    pub sso_start_url: Option<String>,
    /// Metadata managed by this tool.
    pub metadata: Option<Metadata>,
    /// Where the profile was found.
    pub source: ProfileSource,
}

/// Mathematical view of [`Profile`].
pub struct ProfileView {
    pub name: Seq<char>,
    pub region: Option<Seq<char>>,
    pub output: Option<Seq<char>>,
    pub sso_session: Option<Seq<char>>,
    pub sso_start_url: Option<Seq<char>>,
    pub metadata: Option<MetadataView>,
    pub source: ProfileSource,
}

/// The view of optional metadata.
pub open spec fn opt_meta_view(m: Option<Metadata>) -> Option<MetadataView> {
    match m {
        Some(x) => Some(x@),
        None => None,
    }
}

impl View for Profile {
    type V = ProfileView;

    open spec fn view(&self) -> ProfileView {
        ProfileView {
            name: self.name@,
            region: opt_view(self.region),
            output: opt_view(self.output),
            sso_session: opt_view(self.sso_session),
            sso_start_url: opt_view(self.sso_start_url),
            metadata: opt_meta_view(self.metadata),
            source: self.source,
        }
    }
}

/// The view of a profile that has only a name.
pub open spec fn bare_profile(name: Seq<char>) -> ProfileView {
    ProfileView {
        name,
        region: None,
        output: None,
        sso_session: None,
        sso_start_url: None,
        metadata: None,
        source: ProfileSource::Config,
    }
}

/// The views of a sequence of profiles.
pub open spec fn profile_views(ps: Seq<Profile>) -> Seq<ProfileView> {
    ps.map_values(|p: Profile| p@)
}

impl Profile {
    /// Creates a profile with the given name and no other field set.
    pub fn new(name: String) -> (r: Self)
        ensures
            r@ == bare_profile(name@),
            r.name == name,
    {
        Profile {
            name,
            region: None,
            output: None,
            sso_session: None,
            sso_start_url: None,
            metadata: None,
            source: ProfileSource::Config,
        }
    }

    /// A copy of this profile.
    pub fn duplicate(&self) -> (r: Profile)
        ensures
            r@ == self@,
    {
        Profile {
            name: self.name.clone(),
            region: copy_opt(&self.region),
            output: copy_opt(&self.output),
            sso_session: copy_opt(&self.sso_session),
            sso_start_url: copy_opt(&self.sso_start_url),
            metadata: match &self.metadata {
                Some(m) => Some(m.duplicate()),
                None => None,
            },
            source: self.source,
        }
    }

    /// The region that applies to this profile: the metadata override if
    /// one is set, else the region of the AWS config.
    pub fn effective_region(&self) -> (r: Option<String>)
        ensures
            opt_view(r) == effective_region(self@),
    {
        match &self.metadata {
            Some(m) => match &m.region {
                Some(reg) => { return Some(reg.clone()); },
                None => {},
            },
            None => {},
        }
        copy_opt(&self.region)
    }

    /// The tags of this profile's metadata, or none.
    pub fn tag_list(&self) -> (r: Vec<String>)
        ensures
            views(r@) == profile_tags(self@),
    {
        match &self.metadata {
            Some(m) => copy_strings(&m.tags),
            None => {
                let r: Vec<String> = Vec::new();
                assert(views(r@) =~= Seq::<Seq<char>>::empty());
                r
            },
        }
    }
}

/// The region that applies to a profile: metadata override first, then
/// the region of the AWS config.
pub open spec fn effective_region(p: ProfileView) -> Option<Seq<char>> {
    match p.metadata {
        Some(m) => match m.region {
            Some(r) => Some(r),
            None => p.region,
        },
        None => p.region,
    }
}

/// The tags of a profile (none when it has no metadata).
pub open spec fn profile_tags(p: ProfileView) -> Seq<Seq<char>> {
    match p.metadata {
        Some(m) => m.tags,
        None => Seq::empty(),
    }
}

/// The aliases of a profile (none when it has no metadata).
pub open spec fn profile_aliases(p: ProfileView) -> Seq<Seq<char>> {
    match p.metadata {
        Some(m) => m.aliases,
        None => Seq::empty(),
    }
}

} // verus!
