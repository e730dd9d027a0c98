use awspm::config::Store;
use awspm::list::{ListCommand, ListFilter};
use awspm::list_view::{HighlightConfig, ListView};
use awspm::metadata::{GlobalConfig, MetadataEntry, MetadataStore};
use awspm::sso::{SsoService, SsoStatus};
use awspm::types::{Metadata, Profile};

fn profiles() -> Vec<Profile> {
    let mut a = Profile::new("Prod-DB".to_string());
    a.metadata = Some(Metadata {
        tags: vec!["Database".to_string()],
        aliases: vec!["pdb".to_string()],
        note: Some("Main cluster".to_string()),
        ..Default::default()
    });
    let b = Profile::new("dev".to_string());
    vec![a, b]
}

fn names(v: &[Profile]) -> Vec<String> {
    v.iter().map(|p| p.name.clone()).collect()
}

#[test]
fn filter_by_field() {
    assert_eq!(names(&ListFilter::filter(profiles(), None)), vec!["Prod-DB", "dev"]);
    assert_eq!(names(&ListFilter::filter(profiles(), Some(""))), vec!["Prod-DB", "dev"]);
    assert_eq!(names(&ListFilter::filter(profiles(), Some("tag:data"))), vec!["Prod-DB"]);
    assert_eq!(names(&ListFilter::filter(profiles(), Some("alias:PD"))), vec!["Prod-DB"]);
    assert_eq!(names(&ListFilter::filter(profiles(), Some("name:dev"))), vec!["dev"]);
    assert_eq!(names(&ListFilter::filter(profiles(), Some("cluster"))), vec!["Prod-DB"]);
    assert!(ListFilter::filter(profiles(), Some("tag:dev")).is_empty());
}

#[test]
fn list_command_filters_store_profiles() {
    let entries = vec![MetadataEntry {
        name: "a".to_string(),
        metadata: Metadata { tags: vec!["team".to_string()], ..Default::default() },
    }];
    let store = Store::from_sources(
        Some("[profile a]\n[profile b]\n".to_string()),
        None,
        None,
        false,
        MetadataStore { config: GlobalConfig::default(), profiles: entries },
        None,
    );
    assert_eq!(names(&ListCommand::execute(&store, Some("tag:team".to_string()))), vec!["a"]);
    assert_eq!(ListCommand::execute(&store, None).len(), 2);
}

#[test]
fn parse_query_highlights() {
    let (re, cfg) = ListView::parse_query("");
    assert!(re.is_none());
    assert_eq!(cfg, HighlightConfig { name: false, aliases: false, tags: false, note: false });

    let (re, cfg) = ListView::parse_query("TAG:a.b");
    assert_eq!(cfg, HighlightConfig { name: false, aliases: false, tags: true, note: false });
    let re = re.unwrap();
    assert!(re.regex().is_match("xA.By"));
    assert!(!re.regex().is_match("axb"));

    let (_, cfg) = ListView::parse_query("alias:x");
    assert_eq!(cfg, HighlightConfig { name: false, aliases: true, tags: false, note: false });
    let (_, cfg) = ListView::parse_query("name:x");
    assert_eq!(cfg, HighlightConfig { name: true, aliases: false, tags: false, note: false });
    let (re, cfg) = ListView::parse_query("Prod");
    assert_eq!(cfg, HighlightConfig { name: true, aliases: true, tags: true, note: true });
    assert!(re.unwrap().regex().is_match("my-PROD"));
}

#[test]
fn sso_icons() {
    assert_eq!(ListView::sso_icon(SsoStatus::Active), "🟢 ");
    assert_eq!(ListView::sso_icon(SsoStatus::Expired), "🔴 ");
    assert_eq!(ListView::sso_icon(SsoStatus::NotConfigured), "⚪ ");
    assert_eq!(ListView::sso_icon(SsoStatus::Unknown), "❓ ");
    let view = ListView::new(true, "q", SsoService::with_cache_dir("/c".to_string()));
    assert!(view.short);
    assert!(view.regex.is_some());
}

#[test]
fn filter_ignores_query_case_and_is_idempotent() {
    let once = ListFilter::filter(profiles(), Some("PROD"));
    assert_eq!(names(&once), names(&ListFilter::filter(profiles(), Some("prod"))));
    let twice = ListFilter::filter(once.clone(), Some("PROD"));
    assert_eq!(names(&twice), names(&once));
}
