use awspm::config::Store;
use awspm::metadata::{GlobalConfig, MetadataEntry, MetadataStore};
use awspm::types::{Metadata, ProfileSource};

fn empty_meta() -> MetadataStore {
    MetadataStore { config: GlobalConfig::default(), profiles: Vec::new() }
}

fn entry(name: &str, metadata: Metadata) -> MetadataEntry {
    MetadataEntry { name: name.to_string(), metadata }
}

#[test]
fn test_load_valid_config() {
    let config = "[default]\nregion = us-east-1\noutput = json\n\n[profile staging]\nregion = us-west-2\noutput = text\n";
    let store = Store::from_sources(Some(config.to_string()), Some(String::new()), None, false, empty_meta(), None);
    let profiles = store.load_profiles();
    assert_eq!(profiles.len(), 2);
    let default = profiles.iter().find(|p| p.name == "default").unwrap();
    assert_eq!(default.region.as_deref(), Some("us-east-1"));
    assert_eq!(default.output.as_deref(), Some("json"));
    let staging = profiles.iter().find(|p| p.name == "staging").unwrap();
    assert_eq!(staging.region.as_deref(), Some("us-west-2"));
    assert_eq!(staging.output.as_deref(), Some("text"));
}

#[test]
fn test_load_empty_config() {
    let store = Store::from_sources(Some(String::new()), Some(String::new()), None, false, empty_meta(), None);
    let profiles = store.load_profiles();
    assert!(profiles.is_empty(), "Profiles should be empty, but found: {:?}", profiles);
}

#[test]
fn test_ignore_irrelevant_sections() {
    let config = "[profile prod]\nregion = us-east-1\n\n[sso-session my-sso]\nsso_start_url = start_url\n";
    let store = Store::from_sources(Some(config.to_string()), None, None, false, empty_meta(), None);
    let profiles = store.load_profiles();
    assert_eq!(profiles.len(), 1);
    assert_eq!(profiles[0].name, "prod");
}

#[test]
fn test_load_aws_credentials() {
    let creds = "[default]\naws_access_key_id=foo\naws_secret_access_key=bar\n\n[dev-profile]\naws_access_key_id=test\naws_secret_access_key=test";
    let store = Store::from_sources(None, Some(creds.to_string()), None, false, empty_meta(), None);
    let profiles = store.load_profiles();
    assert!(profiles.iter().any(|p| p.name == "default" && p.source == ProfileSource::Credentials));
    assert!(profiles.iter().any(|p| p.name == "dev-profile" && p.source == ProfileSource::Credentials));
}

#[test]
fn test_check_sync_status_orphans_and_untracked() {
    let meta = MetadataStore {
        config: GlobalConfig::default(),
        profiles: vec![entry("orphaned_user", Metadata { tags: vec!["old".to_string()], ..Default::default() })],
    };
    let store = Store::from_sources(Some("[profile active_user]\nregion=us-east-1".to_string()), None, None, false, meta, None);
    let status = store.check_sync_status();

    // Verify Untracked (active_user is in config but not metadata)
    assert_eq!(status.untracked.len(), 1);
    assert_eq!(status.untracked[0].name, "active_user");

    // Verify Orphaned (orphaned_user is in metadata but not config)
    assert_eq!(status.orphaned.len(), 1);
    assert_eq!(status.orphaned[0], "orphaned_user");
}

#[test]
fn test_ignore_env_vars_profile_in_sync() {
    let store = Store::from_sources(Some(String::new()), None, None, true, empty_meta(), None);
    let status = store.check_sync_status();
    assert!(status.untracked.is_empty(), "env-vars should be ignored in sync check");
    assert!(store.find_by_name("env-vars").is_some());
}

#[test]
fn sources_are_merged() {
    let store = Store::from_sources(
        Some("[profile both]\nregion = eu-west-1\n[profile conf]\n".to_string()),
        Some("[both]\n[cred]\n".to_string()),
        Some("envp".to_string()),
        false,
        empty_meta(),
        None,
    );
    let both = store.find_by_name("both").unwrap();
    assert_eq!(both.source, ProfileSource::Merged);
    assert_eq!(both.region.as_deref(), Some("eu-west-1"));
    assert_eq!(store.find_by_name("conf").unwrap().source, ProfileSource::Config);
    assert_eq!(store.find_by_name("cred").unwrap().source, ProfileSource::Credentials);
    assert_eq!(store.find_by_name("envp").unwrap().source, ProfileSource::Env);
    assert!(store.find_by_name("missing").is_none());
    assert_eq!(store.load_profiles().len(), 4);
}

#[test]
fn unparsable_config_gives_no_profiles() {
    let store = Store::from_sources(Some("[broken\n".to_string()), None, None, false, empty_meta(), None);
    assert!(store.load_profiles().is_empty());
}

#[test]
fn metadata_is_attached_and_last_entry_wins() {
    let meta = MetadataStore {
        config: GlobalConfig::default(),
        profiles: vec![
            entry("a", Metadata { note: Some("first".to_string()), ..Default::default() }),
            entry("a", Metadata { note: Some("second".to_string()), ..Default::default() }),
        ],
    };
    let store = Store::from_sources(Some("[profile a]\n".to_string()), None, None, false, meta, None);
    let a = store.find_by_name("a").unwrap();
    assert_eq!(a.metadata.unwrap().note.as_deref(), Some("second"));
    assert_eq!(store.global_store().profiles.len(), 1);
}

#[test]
fn local_metadata_overrides_by_name_and_alias() {
    let global = MetadataStore {
        config: GlobalConfig::default(),
        profiles: vec![
            entry("real-id", Metadata {
                aliases: vec!["project-prod".to_string()],
                tags: vec!["global".to_string()],
                note: Some("keep".to_string()),
                ..Default::default()
            }),
            entry("other", Metadata { note: Some("global note".to_string()), ..Default::default() }),
        ],
    };
    let local = MetadataStore {
        config: GlobalConfig::default(),
        profiles: vec![
            entry("project-prod", Metadata {
                region: Some("eu-central-1".to_string()),
                tags: vec!["team-shared".to_string()],
                ..Default::default()
            }),
            entry("other", Metadata { note: Some("local note".to_string()), ..Default::default() }),
            entry("unknown", Metadata { note: Some("ignored".to_string()), ..Default::default() }),
        ],
    };
    let store = Store::from_sources(
        Some("[profile real-id]\n[profile other]\n".to_string()),
        None,
        None,
        false,
        global,
        Some(local),
    );
    let real = store.find_by_name("real-id").unwrap().metadata.unwrap();
    assert_eq!(real.region.as_deref(), Some("eu-central-1"));
    assert_eq!(real.tags, vec!["team-shared".to_string()]);
    assert_eq!(real.note.as_deref(), Some("keep"));
    assert_eq!(real.aliases, vec!["project-prod".to_string()]);
    let other = store.find_by_name("other").unwrap().metadata.unwrap();
    assert_eq!(other.note.as_deref(), Some("local note"));
    assert!(store.find_by_name("unknown").is_none());
    // The alias resolves to the real profile.
    let resolved = store.find_by_name_or_alias("project-prod").unwrap().unwrap();
    assert_eq!(resolved.name, "real-id");
}

#[test]
fn save_and_delete_metadata() {
    let mut store = Store::from_sources(Some("[profile a]\n".to_string()), None, None, false, empty_meta(), None);
    store.save_metadata("a", Metadata { note: Some("n".to_string()), ..Default::default() });
    assert_eq!(store.find_by_name("a").unwrap().metadata.unwrap().note.as_deref(), Some("n"));
    assert!(store.delete_metadata("a"));
    assert!(store.find_by_name("a").unwrap().metadata.is_none());
    assert!(!store.delete_metadata("a"));
}

#[test]
fn global_config_is_kept() {
    let meta = MetadataStore {
        config: GlobalConfig {
            sensitive_keywords: Some(vec!["custom-sensitive".to_string()]),
            sso_cache_path: Some("/tmp/cache".to_string()),
        },
        profiles: Vec::new(),
    };
    let store = Store::from_sources(None, None, None, false, meta, None);
    let cfg = store.get_global_config();
    assert_eq!(cfg.sensitive_keywords, Some(vec!["custom-sensitive".to_string()]));
    assert_eq!(cfg.sso_cache_path.as_deref(), Some("/tmp/cache"));
}
