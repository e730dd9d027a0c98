use awspm::config::Store;
use awspm::error::AppError;
use awspm::metadata::{GlobalConfig, MetadataEntry, MetadataStore};
use awspm::types::Metadata;
use awspm::update::{UpdateArgs, UpdateCommand, UpdateLogic};

fn args(name: &str) -> UpdateArgs {
    UpdateArgs {
        profile_name: name.to_string(),
        add_tags: vec![],
        remove_tags: vec![],
        add_aliases: vec![],
        remove_aliases: vec![],
        set_note: None,
        unset_note: false,
        set_region: None,
        unset_region: false,
    }
}

fn store(config: &str, entries: Vec<MetadataEntry>) -> Store {
    Store::from_sources(
        Some(config.to_string()),
        None,
        None,
        false,
        MetadataStore { config: GlobalConfig::default(), profiles: entries },
        None,
    )
}

#[test]
fn test_update_add_alias_conflict_with_existing_profile() {
    let mut store = store("[profile prod]\n[profile db]\n", vec![]);
    let a = UpdateArgs { add_aliases: vec!["db".to_string()], ..args("prod") };
    let mut notices = Vec::new();
    let result = UpdateLogic::execute(&mut store, a, &mut notices);
    assert!(
        result.is_err(),
        "Should fail when adding alias 'db' which conflicts with profile 'db'"
    );
    assert_eq!(
        result,
        Err(AppError::Unknown("Alias 'db' conflicts with existing profile or alias on 'db'.".to_string()))
    );
    assert!(store.find_by_name("prod").unwrap().metadata.is_none());
}

#[test]
fn test_update_deduplicate_tags() {
    let mut store = store("[profile dev]\n", vec![]);
    let a = UpdateArgs { add_tags: vec!["z".to_string(), "a".to_string(), "z".to_string()], ..args("dev") };
    UpdateLogic::execute(&mut store, a, &mut Vec::new()).unwrap();
    let profile = store.find_by_name("dev").unwrap();
    let tags = profile.metadata.unwrap().tags;
    assert_eq!(tags, vec!["a".to_string(), "z".to_string()]);
}

#[test]
fn update_unknown_profile_is_an_error() {
    let mut store = store("[profile dev]\n", vec![]);
    assert_eq!(
        UpdateCommand::execute(&mut store, args("nope"), &mut Vec::new()),
        Err(AppError::Unknown("Profile 'nope' not found. Run 'sync' if it exists in AWS config.".to_string()))
    );
}

#[test]
fn update_by_alias_and_notices() {
    let entries = vec![MetadataEntry {
        name: "dev".to_string(),
        metadata: Metadata { aliases: vec!["d".to_string()], tags: vec!["x".to_string()], ..Default::default() },
    }];
    let mut store = store("[profile dev]\n", entries);
    let a = UpdateArgs {
        add_tags: vec!["x".to_string(), "y".to_string()],
        remove_tags: vec!["missing".to_string()],
        set_note: Some("hello".to_string()),
        set_region: Some("us-west-2".to_string()),
        ..args("d")
    };
    let mut notices = Vec::new();
    UpdateCommand::execute(&mut store, a, &mut notices).unwrap();
    assert_eq!(
        notices,
        vec![
            "Tag 'x' already exists on profile 'dev'.".to_string(),
            "Tag 'missing' not found on profile 'dev'.".to_string(),
        ]
    );
    let m = store.find_by_name("dev").unwrap().metadata.unwrap();
    assert_eq!(m.tags, vec!["x".to_string(), "y".to_string()]);
    assert_eq!(m.note.as_deref(), Some("hello"));
    assert_eq!(m.region.as_deref(), Some("us-west-2"));
    assert_eq!(m.aliases, vec!["d".to_string()]);
    let b = UpdateArgs { unset_note: true, unset_region: true, remove_tags: vec!["x".to_string()], ..args("dev") };
    UpdateCommand::execute(&mut store, b, &mut Vec::new()).unwrap();
    let m = store.find_by_name("dev").unwrap().metadata.unwrap();
    assert_eq!(m.note, None);
    assert_eq!(m.region, None);
    assert_eq!(m.tags, vec!["y".to_string()]);
}

#[test]
fn update_ambiguous_alias_is_an_error() {
    let entries = vec![
        MetadataEntry { name: "a".to_string(), metadata: Metadata { aliases: vec!["s".to_string()], ..Default::default() } },
        MetadataEntry { name: "b".to_string(), metadata: Metadata { aliases: vec!["s".to_string()], ..Default::default() } },
    ];
    let mut store = store("[profile a]\n[profile b]\n", entries);
    assert_eq!(
        UpdateCommand::execute(&mut store, args("s"), &mut Vec::new()),
        Err(AppError::AmbiguousProfile("s".to_string()))
    );
}

#[test]
fn update_through_an_alias_may_add_another_alias_of_the_same_profile() {
    let entries = vec![MetadataEntry {
        name: "dev".to_string(),
        metadata: Metadata { aliases: vec!["d".to_string(), "develop".to_string()], ..Default::default() },
    }];
    let mut store = store("[profile dev]\n", entries);
    let mut notices = Vec::new();
    let a = UpdateArgs { add_aliases: vec!["develop".to_string()], ..args("d") };
    assert_eq!(UpdateCommand::execute(&mut store, a, &mut notices), Ok(()));
    assert_eq!(notices, vec!["Alias 'develop' already exists on profile 'dev'.".to_string()]);
}

#[test]
fn notices_before_a_conflict_are_kept() {
    let entries = vec![MetadataEntry {
        name: "prod".to_string(),
        metadata: Metadata { tags: vec!["t".to_string()], aliases: vec!["p".to_string()], ..Default::default() },
    }];
    let mut store = store("[profile prod]\n[profile db]\n", entries);
    let mut notices = Vec::new();
    let a = UpdateArgs {
        add_tags: vec!["t".to_string()],
        add_aliases: vec!["p".to_string(), "db".to_string(), "x".to_string()],
        ..args("prod")
    };
    assert!(UpdateCommand::execute(&mut store, a, &mut notices).is_err());
    assert_eq!(
        notices,
        vec!["Tag 't' already exists on profile 'prod'.".to_string(), "Alias 'p' already exists on profile 'prod'.".to_string()]
    );
}
