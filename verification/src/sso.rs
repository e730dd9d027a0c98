//! AWS SSO session status from the SSO cache.
use vstd::prelude::*;
use sha1::Digest;
use crate::error::AppError;
use crate::paths::{expand_tilde_with_home, expand_tilde_spec, home_dir, joined_path, path_join};
use crate::types::{Profile, ProfileView, opt_view};

verus! {

/// Represents the SSO session status for a profile.
#[derive(Debug, PartialEq, Eq, Clone, Copy, Structural)]
pub enum SsoStatus {
    /// Session is valid and active.
    Active,
    /// Session has expired (needs login).
    Expired,
    /// Profile is not configured for SSO.
    NotConfigured,
    /// Status could not be determined or cache file missing.
    Unknown,
}

/// A point in time: seconds since the Unix epoch and nanoseconds (which
/// reach past a second only within a leap second, as `chrono` keeps them).
#[derive(Debug, Clone, Copy, PartialEq, Eq, Structural)]
pub struct Instant {
    pub secs: i64,
    pub nanos: u32,
}

/// `a` is strictly later than `b`.
pub open spec fn later(a: Instant, b: Instant) -> bool {
    a.secs > b.secs || (a.secs == b.secs && a.nanos > b.nanos)
}

/// The SHA-1 digest of some bytes.
pub uninterp spec fn sha1_of(data: Seq<u8>) -> Seq<u8>;

/// The instant that `chrono::DateTime::parse_from_rfc3339` reads from a
/// text, as (seconds since the epoch, nanoseconds), or `None` when the
/// text is not RFC 3339.
pub uninterp spec fn rfc3339_instant(s: Seq<char>) -> Option<(int, int)>;

/// Calls `sha1::Sha1::digest`. The result is named `sha1_of` of the
/// input; a SHA-1 digest is 20 bytes long.
#[verifier::external_body]
fn sha1_digest(data: &[u8]) -> (r: Vec<u8>)
    ensures
        r@ == sha1_of(data@),
        r@.len() == 20,
{
    sha1::Sha1::digest(data).to_vec()
}

/// A hexadecimal digit in lower case.
pub open spec fn hex_digit(d: int) -> char {
    if d < 10 {
        (('0' as int) + d) as char
    } else {
        (('a' as int) + d - 10) as char
    }
}

/// Lower-case hexadecimal text of bytes: two digits per byte, high half
/// first.
pub open spec fn hex_lower(data: Seq<u8>) -> Seq<char>
    decreases data.len(),
{
    if data.len() == 0 {
        Seq::empty()
    } else {
        hex_lower(data.drop_last()).push(hex_digit(data.last() as int / 16)).push(hex_digit(data.last() as int % 16))
    }
}

/// Calls `hex::encode`, which writes each byte as two lower-case
/// hexadecimal digits, high half first.
#[verifier::external_body]
fn hex_encode(data: &[u8]) -> (r: String)
    ensures
        r@ == hex_lower(data@),
{
    hex::encode(data)
}

/// Calls `chrono::DateTime::parse_from_rfc3339` and gives the instant
/// back as seconds since the epoch and nanoseconds. The result is named
/// `rfc3339_instant` of the text.
#[verifier::external_body]
pub(crate) fn parse_rfc3339(s: &str) -> (r: Option<Instant>)
    ensures
        match r {
            Some(t) => rfc3339_instant(s@) == Some((t.secs as int, t.nanos as int)),
            None => rfc3339_instant(s@) is None,
        },
{
    chrono::DateTime::parse_from_rfc3339(s).ok().map(|d| Instant { secs: d.timestamp(), nanos: d.timestamp_subsec_nanos() })
}

/// The RFC 3339 text that `chrono` writes for an instant in UTC, or
/// `None` for an instant it cannot represent.
pub uninterp spec fn rfc3339_text(secs: int, nanos: int) -> Option<Seq<char>>;

/// Calls `chrono::Utc::now`. The clock is read, so which instant comes
/// back is not claimed; it is one that `chrono` represents (a
/// `DateTime` is rebuilt by `DateTime::from_timestamp` from its
/// `timestamp` and `timestamp_subsec_nanos`), so it has an RFC 3339 text.
#[verifier::external_body]
pub(crate) fn utc_now() -> (r: Instant)
    ensures
        rfc3339_text(r.secs as int, r.nanos as int) is Some,
{
    let d = chrono::Utc::now();
    Instant { secs: d.timestamp(), nanos: d.timestamp_subsec_nanos() }
}

/// What was found in the SSO cache for a profile.
pub enum CacheRead {
    /// No cache file.
    Missing,
    /// A cache file that could not be read or parsed.
    Unreadable,
    /// A cache file with this `expiresAt` text.
    ExpiresAt(String),
}

/// The key that names a profile's SSO cache file: its SSO session, else
/// its start URL.
pub open spec fn cache_key_source(p: ProfileView) -> Option<Seq<char>> {
    match p.sso_session {
        Some(s) => Some(s),
        None => p.sso_start_url,
    }
}

/// The name of the cache file for a key: the SHA-1 of the key's UTF-8
/// bytes in hexadecimal, then `.json`.
pub open spec fn cache_file_name(key: Seq<char>) -> Seq<char> {
    hex_lower(sha1_of(vstd::utf8::encode_utf8(key))) + ".json"@
}

/// The status that a cache read gives at time `now`.
pub open spec fn status_of(read_expires: Option<Option<Seq<char>>>, now: Instant) -> SsoStatus {
    match read_expires {
        None => SsoStatus::Unknown,
        Some(None) => SsoStatus::Unknown,
        Some(Some(s)) => match rfc3339_instant(s) {
            None => SsoStatus::Unknown,
            Some((secs, nanos)) => if secs > now.secs || (secs == now.secs && nanos > now.nanos) {
                SsoStatus::Active
            } else {
                SsoStatus::Expired
            },
        },
    }
}

/// The spec view of a cache read: `None` for a missing file,
/// `Some(None)` for an unreadable one.
pub open spec fn read_view(r: CacheRead) -> Option<Option<Seq<char>>> {
    match r {
        CacheRead::Missing => None,
        CacheRead::Unreadable => Some(None),
        CacheRead::ExpiresAt(s) => Some(Some(s@)),
    }
}

/// The default cache directory under a home directory.
pub open spec fn default_cache_dir(home: Seq<char>) -> Seq<char> {
    joined_path(home, ".aws/sso/cache"@)
}

/// The cache directory for the configured path and the home directory:
/// the configured path with `~` expanded, else `.aws/sso/cache` under the
/// home directory, else none.
pub open spec fn cache_dir_for(custom: Option<Seq<char>>, home: Option<Seq<char>>) -> Option<Seq<char>> {
    match custom {
        Some(p) => Some(expand_tilde_spec(p, home)),
        None => match home {
            Some(h) => Some(default_cache_dir(h)),
            None => None,
        },
    }
}

/// Service for checking AWS SSO session validity.
pub struct SsoService {
    cache_dir: String,
}

impl View for SsoService {
    type V = Seq<char>;

    /// The cache directory.
    closed spec fn view(&self) -> Seq<char> {
        self.cache_dir@
    }
}

impl SsoService {
    /// Creates a service that looks in the given cache directory.
    pub fn with_cache_dir(cache_dir: String) -> (r: Self)
        ensures
            r@ == cache_dir@,
    {
        SsoService { cache_dir }
    }

    /// Creates a service given the home directory: the configured cache
    /// path (with `~` expanded) or else `.aws/sso/cache` under the home
    /// directory; without a home directory the latter is an error.
    pub fn new_with_home(custom_path: Option<String>, home: Option<String>) -> (r: Result<Self, AppError>)
        ensures
            match cache_dir_for(opt_view(custom_path), opt_view(home)) {
                Some(d) => r matches Ok(s) && s@ == d,
                None => r matches Err(AppError::HomeDirNotFound),
            },
    {
        match custom_path {
            Some(p) => Ok(Self::with_cache_dir(expand_tilde_with_home(p.as_str(), home))),
            None => match home {
                Some(h) => Ok(Self::with_cache_dir(path_join(h.as_str(), ".aws/sso/cache"))),
                None => Err(AppError::HomeDirNotFound),
            },
        }
    }

    /// Creates a service for the current user (see `new_with_home`; the
    /// home directory is read from the environment).
    pub fn new(custom_path: Option<String>) -> (r: Result<Self, AppError>)
        ensures
            custom_path is Some ==> r is Ok,
            exists|h: Option<Seq<char>>|
                match #[trigger] cache_dir_for(opt_view(custom_path), h) {
                    Some(d) => r matches Ok(s) && s@ == d,
                    None => r matches Err(AppError::HomeDirNotFound),
                },
    {
        let home = home_dir();
        let ghost hv = opt_view(home);
        let ghost cv = opt_view(custom_path);
        let r = Self::new_with_home(custom_path, home);
        assert(match cache_dir_for(cv, hv) {
            Some(d) => r matches Ok(s) && s@ == d,
            None => r matches Err(AppError::HomeDirNotFound),
        });
        r
    }

    /// The hexadecimal SHA-1 of a key's UTF-8 bytes.
    pub fn hash_key(key: &str) -> (r: String)
        ensures
            r@ == hex_lower(sha1_of(vstd::utf8::encode_utf8(key@))),
    {
        let d = sha1_digest(key.as_bytes());
        hex_encode(d.as_slice())
    }

    /// The path of a profile's SSO cache file, or `None` when the profile
    /// is not configured for SSO.
    pub fn cache_file_path(&self, profile: &Profile) -> (r: Option<String>)
        ensures
            match cache_key_source(profile@) {
                Some(k) => r matches Some(p) && p@ == joined_path(self@, cache_file_name(k)),
                None => r is None,
            },
    {
        let key = match &profile.sso_session {
            Some(s) => s,
            None => match &profile.sso_start_url {
                Some(u) => u,
                None => { return None; },
            },
        };
        let name = Self::hash_key(key.as_str()).concat(".json");
        Some(path_join(self.cache_dir.as_str(), name.as_str()))
    }

    /// The status that a cache read gives at time `now`: a missing or
    /// unreadable file, or an expiry that does not parse, is unknown; an
    /// expiry later than `now` is active, any other expired.
    pub fn status_from_cache(read: CacheRead, now: Instant) -> (r: SsoStatus)
        ensures
            r == status_of(read_view(read), now),
    {
        match read {
            CacheRead::Missing => SsoStatus::Unknown,
            CacheRead::Unreadable => SsoStatus::Unknown,
            CacheRead::ExpiresAt(s) => match parse_rfc3339(s.as_str()) {
                None => SsoStatus::Unknown,
                Some(t) => if t.secs > now.secs || (t.secs == now.secs && t.nanos > now.nanos) {
                    SsoStatus::Active
                } else {
                    SsoStatus::Expired
                },
            },
        }
    }

    /// The status of a profile: not configured without SSO settings,
    /// else what the read of its cache file gives at `now`. `read` is
    /// what was found at the path that `cache_file_path` gives.
    pub fn get_status(&self, profile: &Profile, read: CacheRead, now: Instant) -> (r: SsoStatus)
        ensures
            r == match cache_key_source(profile@) {
                None => SsoStatus::NotConfigured,
                Some(_) => status_of(read_view(read), now),
            },
    {
        if profile.sso_session.is_none() && profile.sso_start_url.is_none() {
            return SsoStatus::NotConfigured;
        }
        Self::status_from_cache(read, now)
    }

    /// The status of a profile now: `get_status` at the time the clock
    /// gives.
    pub fn current_status(&self, profile: &Profile, read: CacheRead) -> (r: SsoStatus)
        ensures
            cache_key_source(profile@) is None ==> r == SsoStatus::NotConfigured,
            cache_key_source(profile@) is Some ==> exists|now: Instant| r == #[trigger] status_of(read_view(read), now),
    {
        let now = utc_now();
        let ghost rv = read_view(read);
        let r = self.get_status(profile, read, now);
        assert(cache_key_source(profile@) is Some ==> r == status_of(rv, now));
        r
    }
}

/// A session stays active until its expiry and expired after it: a cache
/// read that is active at some time was active at every earlier time, and
/// one that is expired at some time stays expired later; a read that is
/// unknown is unknown at every time. A profile is not configured for SSO
/// exactly when it has neither an SSO session nor an SSO start URL.
pub proof fn law_sso_status_over_time(read: Option<Option<Seq<char>>>, t1: Instant, t2: Instant, p: ProfileView)
    requires
        later(t2, t1),
    ensures
        status_of(read, t2) == SsoStatus::Active ==> status_of(read, t1) == SsoStatus::Active,
        status_of(read, t1) == SsoStatus::Expired ==> status_of(read, t2) == SsoStatus::Expired,
        (status_of(read, t1) == SsoStatus::Unknown) == (status_of(read, t2) == SsoStatus::Unknown),
        (cache_key_source(p) is None) == (p.sso_session is None && p.sso_start_url is None),
{
}

} // verus!
