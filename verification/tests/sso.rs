use awspm::sso::{CacheRead, Instant, SsoService, SsoStatus};
use awspm::types::Profile;

fn sso_profile() -> Profile {
    let mut profile = Profile::new("test".to_string());
    profile.sso_session = Some("session-id".to_string());
    profile
}

#[test]
fn test_sso_status_active() {
    let service = SsoService::with_cache_dir("/cache".to_string());
    let future = chrono::Utc::now() + chrono::Duration::hours(1);
    let status = service.current_status(&sso_profile(), CacheRead::ExpiresAt(future.to_rfc3339()));
    assert_eq!(status, SsoStatus::Active);
}

#[test]
fn test_sso_status_expired() {
    let service = SsoService::with_cache_dir("/cache".to_string());
    let past = chrono::Utc::now() - chrono::Duration::hours(1);
    let status = service.current_status(&sso_profile(), CacheRead::ExpiresAt(past.to_rfc3339()));
    assert_eq!(status, SsoStatus::Expired);
}

#[test]
fn test_sso_status_not_configured() {
    let service = SsoService::with_cache_dir("/cache".to_string());
    let profile = Profile::new("test".to_string()); // No SSO config

    assert_eq!(service.current_status(&profile, CacheRead::Missing), SsoStatus::NotConfigured);
}

#[test]
fn test_sso_status_unknown_missing_file() {
    let service = SsoService::with_cache_dir("/cache".to_string());
    // No file
    assert_eq!(service.current_status(&sso_profile(), CacheRead::Missing), SsoStatus::Unknown);
}

#[test]
fn sso_status_at_a_given_time() {
    let service = SsoService::with_cache_dir("/cache".to_string());
    let p = sso_profile();
    let now = Instant { secs: 1_700_000_000, nanos: 0 };
    let later = "2023-11-14T22:13:21Z".to_string(); // 1_700_000_001
    let same = "2023-11-14T22:13:20Z".to_string(); // 1_700_000_000
    assert_eq!(service.get_status(&p, CacheRead::ExpiresAt(later), now), SsoStatus::Active);
    assert_eq!(service.get_status(&p, CacheRead::ExpiresAt(same), now), SsoStatus::Expired);
    assert_eq!(service.get_status(&p, CacheRead::ExpiresAt("garbage".to_string()), now), SsoStatus::Unknown);
    assert_eq!(service.get_status(&p, CacheRead::Unreadable, now), SsoStatus::Unknown);
}

#[test]
fn rfc3339_is_read_as_epoch_seconds() {
    let at = |s: &str, secs: i64, nanos: u32| {
        SsoService::status_from_cache(CacheRead::ExpiresAt(s.to_string()), Instant { secs, nanos })
    };
    // An expiry is active strictly before it and expired from it on.
    assert_eq!(at("1970-01-01T01:00:00+01:00", -1, 0), SsoStatus::Active);
    assert_eq!(at("1970-01-01T01:00:00+01:00", 0, 0), SsoStatus::Expired);
    assert_eq!(at("2023-11-14T22:13:20.5Z", 1_700_000_000, 499_999_999), SsoStatus::Active);
    assert_eq!(at("2023-11-14T22:13:20.5Z", 1_700_000_000, 500_000_000), SsoStatus::Expired);
    assert_eq!(at("not a date", 0, 0), SsoStatus::Unknown);
}

#[test]
fn cache_file_is_the_sha1_of_the_session() {
    assert_eq!(SsoService::hash_key("session-id"), "ead645798ac46a83a69695fde55eb1aa7ec730c9");
    let service = SsoService::with_cache_dir("/cache".to_string());
    assert_eq!(
        service.cache_file_path(&sso_profile()),
        Some("/cache/ead645798ac46a83a69695fde55eb1aa7ec730c9.json".to_string())
    );
    let mut by_url = Profile::new("u".to_string());
    by_url.sso_start_url = Some("https://example.awsapps.com/start".to_string());
    assert_eq!(
        service.cache_file_path(&by_url),
        Some("/cache/e8be5486177c5b5392bd9aa76563515b29358e6e.json".to_string())
    );
    assert_eq!(service.cache_file_path(&Profile::new("none".to_string())), None);
}

#[test]
fn test_sso_cache_path_from_config() {
    let service = SsoService::new(Some("/custom_cache".to_string())).unwrap();
    assert_eq!(
        service.cache_file_path(&sso_profile()),
        Some("/custom_cache/ead645798ac46a83a69695fde55eb1aa7ec730c9.json".to_string())
    );
    let with_home = SsoService::new_with_home(Some("~/custom_cache".to_string()), Some("/home/u".to_string())).unwrap();
    assert_eq!(
        with_home.cache_file_path(&sso_profile()),
        Some("/home/u/custom_cache/ead645798ac46a83a69695fde55eb1aa7ec730c9.json".to_string())
    );
    let default = SsoService::new_with_home(None, Some("/home/u".to_string())).unwrap();
    assert_eq!(
        default.cache_file_path(&sso_profile()),
        Some("/home/u/.aws/sso/cache/ead645798ac46a83a69695fde55eb1aa7ec730c9.json".to_string())
    );
    assert!(SsoService::new_with_home(None, None).is_err());
}
