use awspm::policy::ProfileSafetyPolicy;

#[test]
fn test_custom_keywords() {
    // Custom keywords
    let policy = ProfileSafetyPolicy::new(Some(vec!["foo".to_string()]));
    assert!(policy.is_sensitive_profile("foo-bar", &[]));
    assert!(!policy.is_sensitive_profile("prod", &[])); // verify default not included if custom provided

    // Defaults
    let default_policy = ProfileSafetyPolicy::new(None);
    assert!(default_policy.is_sensitive_profile("prod", &[]));
    assert!(!default_policy.is_sensitive_profile("foo", &[]));
}

#[test]
fn policy_matches_names_case_insensitively() {
    let policy = ProfileSafetyPolicy::new(None);
    assert!(policy.is_sensitive_profile("My-PRODUCTION-db", &[]));
    assert!(policy.is_sensitive_profile("Live", &[]));
    assert!(policy.is_sensitive_profile("main-account", &[]));
    assert!(!policy.is_sensitive_profile("dev", &[]));
}

#[test]
fn policy_matches_tags_exactly_ignoring_case() {
    let policy = ProfileSafetyPolicy::new(None);
    assert!(policy.is_sensitive_profile("dev", &["PROD".to_string()]));
    assert!(!policy.is_sensitive_profile("dev", &["production-like".to_string()]));
    assert!(!policy.is_sensitive_profile("dev", &["team-a".to_string()]));
}

#[test]
fn custom_keywords_are_lowercased() {
    let policy = ProfileSafetyPolicy::new(Some(vec!["Custom-Sensitive".to_string()]));
    assert!(policy.is_sensitive_profile("my-custom-sensitive-account", &[]));
    assert!(policy.is_sensitive_profile("x", &["custom-sensitive".to_string()]));
    assert!(!policy.is_sensitive_profile("production", &[]));
}

#[test]
fn default_policy_is_the_default_keywords() {
    let policy = ProfileSafetyPolicy::default();
    assert!(policy.is_sensitive_profile("prod", &[]));
    assert!(policy.is_sensitive_profile("x", &["live".to_string()]));
}
