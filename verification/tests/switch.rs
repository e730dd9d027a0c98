use awspm::config::Store;
use awspm::exec::EnvVar;
use awspm::metadata::{GlobalConfig, MetadataStore};
use awspm::policy::ProfileSafetyPolicy;
use awspm::switch::{SwitchCheck, SwitchCommand};
use awspm::types::{Metadata, Profile};

fn store_a() -> Store {
    Store::from_sources(
        Some("[profile A]\n".to_string()),
        None,
        None,
        false,
        MetadataStore { config: GlobalConfig::default(), profiles: Vec::new() },
        None,
    )
}

#[test]
fn test_update_timestamp_on_switch() {
    let mut store = store_a();
    let profile = store.find_by_name("A").expect("Profile A exists");
    assert!(profile.metadata.is_none() || profile.metadata.clone().unwrap().last_used_at.is_none());

    let policy = ProfileSafetyPolicy::new(None);
    let profile = match SwitchCommand::check(&store, &policy, "A", false) {
        SwitchCheck::Proceed(p) => p,
        _ => panic!("A should switch without asking"),
    };
    SwitchCommand::record_use(&mut store, "A", &profile);

    let profile_after = store.find_by_name("A").expect("Profile A exists");
    let metadata = profile_after.metadata.expect("Metadata created");
    assert!(metadata.last_used_at.is_some());
    assert!(chrono::DateTime::parse_from_rfc3339(metadata.last_used_at.as_deref().unwrap()).is_ok());
}

#[test]
fn record_use_at_keeps_other_fields() {
    let mut store = store_a();
    let mut p = Profile::new("A".to_string());
    p.metadata = Some(Metadata { note: Some("n".to_string()), ..Default::default() });
    SwitchCommand::record_use_at(&mut store, "A", &p, "2024-05-01T00:00:00+00:00".to_string());
    let m = store.find_by_name("A").unwrap().metadata.unwrap();
    assert_eq!(m.note.as_deref(), Some("n"));
    assert_eq!(m.last_used_at.as_deref(), Some("2024-05-01T00:00:00+00:00"));
}

#[test]
fn switch_checks() {
    let store = store_a();
    let policy = ProfileSafetyPolicy::new(Some(vec!["a".to_string()]));
    assert!(matches!(SwitchCommand::check(&store, &policy, "A", false), SwitchCheck::Confirm(_)));
    assert!(matches!(SwitchCommand::check(&store, &policy, "A", true), SwitchCheck::Proceed(_)));
    assert!(matches!(SwitchCommand::check(&store, &policy, "B", false), SwitchCheck::NotFound));
}

fn pairs(v: &[EnvVar]) -> Vec<(String, String)> {
    v.iter().map(|e| (e.key.clone(), e.value.clone())).collect()
}

#[test]
fn subshell_env_uses_only_the_metadata_region() {
    let mut p = Profile::new("A".to_string());
    p.region = Some("eu-west-1".to_string());
    assert_eq!(pairs(&SwitchCommand::shell_env(&p, "A")), vec![("AWS_PROFILE".to_string(), "A".to_string())]);
    p.metadata = Some(Metadata { region: Some("us-east-2".to_string()), ..Default::default() });
    assert_eq!(
        pairs(&SwitchCommand::shell_env(&p, "A")),
        vec![
            ("AWS_PROFILE".to_string(), "A".to_string()),
            ("AWS_REGION".to_string(), "us-east-2".to_string())
        ]
    );
}
