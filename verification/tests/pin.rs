use awspm::config::Store;
use awspm::metadata::{GlobalConfig, MetadataEntry, MetadataStore};
use awspm::pin::{PinCommand, PinDecision};
use awspm::policy::ProfileSafetyPolicy;
use awspm::types::Metadata;

#[test]
fn test_awspm_local_creates_envrc() {
    let content = PinCommand::update_envrc("", "my-project");
    assert!(content.contains("export AWS_PROFILE=my-project"));
    assert_eq!(content, "export AWS_PROFILE=my-project\n");
}

#[test]
fn test_awspm_local_updates_envrc() {
    let before = "export FOO=bar\nexport AWS_PROFILE=old-project\n";
    let content = PinCommand::update_envrc(before, "other-project");
    assert!(content.contains("export FOO=bar"));
    assert!(content.contains("export AWS_PROFILE=other-project"));
    assert!(!content.contains("export AWS_PROFILE=old-project"));
    assert_eq!(content, "export FOO=bar\nexport AWS_PROFILE=other-project\n");
}

#[test]
fn update_envrc_appends_after_missing_newline() {
    assert_eq!(PinCommand::update_envrc("export FOO=bar", "p"), "export FOO=bar\nexport AWS_PROFILE=p\n");
    assert_eq!(PinCommand::update_envrc("export FOO=bar\n", "p"), "export FOO=bar\nexport AWS_PROFILE=p\n");
}

#[test]
fn update_envrc_replaces_only_the_first_export() {
    let before = "export AWS_PROFILE=a\nexport AWS_PROFILE=b\n";
    assert_eq!(PinCommand::update_envrc(before, "c"), "export AWS_PROFILE=c\nexport AWS_PROFILE=b\n");
    // An indented export is not a match for the pattern.
    assert_eq!(PinCommand::update_envrc("  export AWS_PROFILE=a", "c"), "  export AWS_PROFILE=a\nexport AWS_PROFILE=c\n");
}

#[test]
fn pin_twice_is_pin_once() {
    let once = PinCommand::update_envrc("export X=1", "prod");
    let twice = PinCommand::update_envrc(&once, "prod");
    assert_eq!(once, twice);
}

#[test]
fn pin_asks_for_sensitive_profiles() {
    let entries = vec![MetadataEntry {
        name: "billing".to_string(),
        metadata: Metadata { tags: vec!["production".to_string()], ..Default::default() },
    }];
    let store = Store::from_sources(
        Some("[profile billing]\n[profile dev]\n".to_string()),
        None,
        None,
        false,
        MetadataStore { config: GlobalConfig::default(), profiles: entries },
        None,
    );
    let policy = ProfileSafetyPolicy::new(None);
    assert!(matches!(PinCommand::decide(&store, &policy, "billing", false), PinDecision::Confirm));
    assert!(matches!(PinCommand::decide(&store, &policy, "billing", true), PinDecision::Proceed));
    assert!(matches!(PinCommand::decide(&store, &policy, "dev", false), PinDecision::Proceed));
    assert!(matches!(PinCommand::decide(&store, &policy, "unknown-prod", false), PinDecision::Proceed));
}
