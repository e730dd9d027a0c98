use awspm::config::Store;
use awspm::metadata::{GlobalConfig, MetadataEntry, MetadataStore};
use awspm::sync::{SyncCommand, SyncStep};
use awspm::types::Metadata;

fn store() -> Store {
    let entries = vec![
        MetadataEntry { name: "kept".to_string(), metadata: Metadata { note: Some("mine".to_string()), ..Default::default() } },
        MetadataEntry { name: "gone".to_string(), metadata: Metadata::default() },
    ];
    Store::from_sources(
        Some("[profile kept]\n[profile new1]\n".to_string()),
        Some("[new2]\n".to_string()),
        None,
        true,
        MetadataStore { config: GlobalConfig::default(), profiles: entries },
        None,
    )
}

#[test]
fn sync_reports() {
    let store = store();
    let status = store.check_sync_status();
    let mut names: Vec<String> = status.untracked.iter().map(|p| p.name.clone()).collect();
    names.sort();
    assert_eq!(names, vec!["new1".to_string(), "new2".to_string()]);
    assert_eq!(status.orphaned, vec!["gone".to_string()]);
    let report = SyncCommand::untracked_report(&status.untracked);
    assert_eq!(report[0], "Found 2 untracked profiles:");
    assert_eq!(report.len(), 3);
    assert!(report.contains(&"  + new1".to_string()));
    assert_eq!(
        SyncCommand::orphaned_report(&status.orphaned),
        vec![
            "\nFound 1 orphaned profiles (in metadata but missing from AWS config/creds):".to_string(),
            "  - gone".to_string()
        ]
    );
    assert_eq!(SyncCommand::untracked_report(&vec![]), vec!["No new profiles to add.".to_string()]);
    assert_eq!(SyncCommand::orphaned_report(&vec![]), vec!["No orphaned profiles found.".to_string()]);
}

#[test]
fn sync_applies_and_is_stable() {
    let mut store = store();
    let status = store.check_sync_status();
    let added = SyncCommand::add_untracked(&mut store, &status.untracked);
    assert_eq!(added.len(), 2);
    assert!(added.contains(&"Added: new2".to_string()));
    let removed = SyncCommand::remove_orphaned(&mut store, &status.orphaned);
    assert_eq!(removed, vec!["Removed: gone".to_string()]);
    let again = store.check_sync_status();
    assert!(again.untracked.is_empty());
    assert!(again.orphaned.is_empty());
    // Existing metadata is kept.
    assert_eq!(store.find_by_name("kept").unwrap().metadata.unwrap().note.as_deref(), Some("mine"));
    assert_eq!(store.find_by_name("new1").unwrap().metadata.unwrap(), Metadata::default());
}

#[test]
fn sync_steps() {
    assert!(SyncCommand::step(false, false, true) == SyncStep::Skip);
    assert!(SyncCommand::step(true, true, true) == SyncStep::Skip);
    assert!(SyncCommand::step(true, false, true) == SyncStep::Apply);
    assert!(SyncCommand::step(true, false, false) == SyncStep::Ask);
}
