use awspm::config::Store;
use awspm::error::AppError;
use awspm::interaction::InteractionHandler;
use awspm::metadata::{GlobalConfig, MetadataEntry, MetadataStore};
use awspm::policy::ProfileSafetyPolicy;
use awspm::search::{NameResolution, SearchCommand, SearchLogic, SearchTarget};
use awspm::search_view::{SearchView, display_items, is_space_char, join_strings, selected_name};
use awspm::types::{Metadata, Profile};

#[test]
fn test_sort_profiles() {
    // Arrange
    let p1 = Profile {
        metadata: Some(Metadata {
            last_used_at: Some("2023-01-02T12:00:00Z".to_string()),
            ..Default::default()
        }),
        ..Profile::new("B".to_string())
    };

    let p2 = Profile {
        metadata: Some(Metadata {
            last_used_at: Some("2023-01-01T12:00:00Z".to_string()),
            ..Default::default()
        }),
        ..Profile::new("C".to_string())
    };

    let p3 = Profile::new("A".to_string());
    // No metadata => never used

    let _profiles = [p1.clone(), p2.clone(), p3.clone()];

    // Shuffle input to prove sort
    let input = vec![p3.clone(), p1.clone(), p2.clone()];

    // Act
    let sorted = SearchLogic::sort_profiles(input);

    // Assert
    assert_eq!(sorted[0].name, "B");
    assert_eq!(sorted[1].name, "C");
    assert_eq!(sorted[2].name, "A");
}

#[test]
fn sort_profiles_breaks_ties_by_name() {
    let input = vec![
        Profile::new("zeta".to_string()),
        Profile::new("alpha".to_string()),
        Profile::new("mid".to_string()),
    ];
    let sorted = SearchLogic::sort_profiles(input);
    let names: Vec<&str> = sorted.iter().map(|p| p.name.as_str()).collect();
    assert_eq!(names, vec!["alpha", "mid", "zeta"]);
}

struct Answer(bool);

impl InteractionHandler for Answer {
    fn confirm_sensitive_action(&self, _profile_name: &str) -> bool {
        self.0
    }
}

fn tagged(name: &str, tags: &[&str]) -> Profile {
    let mut p = Profile::new(name.to_string());
    p.metadata = Some(Metadata { tags: tags.iter().map(|t| t.to_string()).collect(), ..Default::default() });
    p
}

#[test]
fn finalize_selection_asks_for_sensitive_profiles() {
    let profiles = vec![tagged("dev", &[]), tagged("billing", &["production"])];
    let yes = SearchView::new(Answer(true), ProfileSafetyPolicy::new(None));
    let no = SearchView::new(Answer(false), ProfileSafetyPolicy::new(None));
    assert_eq!(yes.finalize_selection(&profiles, "billing".to_string()), Some("billing".to_string()));
    assert_eq!(no.finalize_selection(&profiles, "billing".to_string()), None);
    assert_eq!(no.finalize_selection(&profiles, "dev".to_string()), Some("dev".to_string()));
    assert!(no.needs_confirmation(&profiles, "billing"));
    assert!(!no.needs_confirmation(&profiles, "dev"));
    // A name that no profile has is returned as chosen.
    assert_eq!(no.finalize_selection(&profiles, "other".to_string()), Some("other".to_string()));
}

#[test]
fn display_items_pad_columns() {
    let mut p = Profile::new("ab".to_string());
    p.region = Some("us-east-1".to_string());
    p.metadata = Some(Metadata {
        tags: vec!["t1".to_string(), "t2".to_string()],
        aliases: vec!["x".to_string()],
        note: Some("hello".to_string()),
        ..Default::default()
    });
    let q = Profile::new("longer-name".to_string());
    let profiles = vec![p, q];
    let all = display_items(&profiles, SearchTarget::All);
    assert_eq!(all[0], "ab          | us-east-1 | t1, t2 | x       | hello");
    assert_eq!(all[1], "longer-name |           |      |         | ");
    let tags = display_items(&profiles, SearchTarget::Tags);
    assert_eq!(tags[0], "ab          | t1, t2");
    let aliases = display_items(&profiles, SearchTarget::Aliases);
    assert_eq!(aliases[1], "longer-name | ");
    let names = display_items(&profiles, SearchTarget::Name);
    assert_eq!(names, vec!["ab".to_string(), "longer-name".to_string()]);
}

#[test]
fn display_items_minimum_widths() {
    let profiles = vec![Profile::new("a".to_string())];
    let all = display_items(&profiles, SearchTarget::All);
    assert_eq!(all[0], "a    |        |      |         | ");
}

#[test]
fn selected_name_takes_the_first_column() {
    assert_eq!(selected_name("  prod-db   | us-east-1 | x"), "prod-db");
    assert_eq!(selected_name("plain"), "plain");
    assert_eq!(selected_name("\t spaced \u{3000}"), "spaced");
    assert_eq!(selected_name("| rest"), "");
    assert!(is_space_char('\u{85}'));
    assert!(!is_space_char('x'));
}

#[test]
fn join_strings_with_separator() {
    assert_eq!(join_strings(&vec![], ", "), "");
    assert_eq!(join_strings(&vec!["a".to_string()], ", "), "a");
    assert_eq!(join_strings(&vec!["a".to_string(), "b".to_string(), "c".to_string()], ", "), "a, b, c");
}

fn store_for_resolution() -> Store {
    let entries = vec![
        MetadataEntry {
            name: "one".to_string(),
            metadata: Metadata { aliases: vec!["shared".to_string(), "first".to_string()], ..Default::default() },
        },
        MetadataEntry {
            name: "two".to_string(),
            metadata: Metadata { aliases: vec!["shared".to_string(), "one".to_string()], ..Default::default() },
        },
    ];
    Store::from_sources(
        Some("[profile one]\n[profile two]\n".to_string()),
        None,
        None,
        false,
        MetadataStore { config: GlobalConfig::default(), profiles: entries },
        None,
    )
}

#[test]
fn resolve_or_search_by_name_alias_and_none() {
    let store = store_for_resolution();
    match SearchCommand::resolve_or_search(&store, Some("first".to_string())) {
        Ok(NameResolution::Resolved(n)) => assert_eq!(n, "one"),
        _ => panic!("alias should resolve"),
    }
    // An exact name wins over another profile's alias.
    match SearchCommand::resolve_or_search(&store, Some("one".to_string())) {
        Ok(NameResolution::Resolved(n)) => assert_eq!(n, "one"),
        _ => panic!("name should resolve"),
    }
    assert!(matches!(SearchCommand::resolve_or_search(&store, None), Ok(NameResolution::Search)));
    assert!(matches!(
        SearchCommand::resolve_or_search(&store, Some("shared".to_string())),
        Err(AppError::AmbiguousProfile(s)) if s == "shared"
    ));
    assert!(matches!(
        SearchCommand::resolve_or_search(&store, Some("nope".to_string())),
        Err(AppError::ProfileNotFound(s)) if s == "nope"
    ));
}

#[test]
fn search_menu_lists_sorted_profiles() {
    let store = store_for_resolution();
    let menu = SearchCommand::execute(&store, SearchTarget::Name);
    assert_eq!(menu.items, vec!["one".to_string(), "two".to_string()]);
    assert_eq!(menu.profiles.len(), 2);
}

#[test]
fn sort_profiles_keeps_the_order_of_equal_keys() {
    let mut first = Profile::new("same".to_string());
    first.region = Some("first".to_string());
    let mut second = Profile::new("same".to_string());
    second.region = Some("second".to_string());
    let sorted = SearchLogic::sort_profiles(vec![Profile::new("z".to_string()), first, second]);
    assert_eq!(sorted[0].region.as_deref(), Some("first"));
    assert_eq!(sorted[1].region.as_deref(), Some("second"));
    assert_eq!(sorted[2].name, "z");
}

#[test]
fn refused_sensitive_choice_gives_nothing() {
    assert_eq!(SearchView::<Answer>::after_answer("p".to_string(), true, false), None);
    assert_eq!(SearchView::<Answer>::after_answer("p".to_string(), true, true), Some("p".to_string()));
    assert_eq!(SearchView::<Answer>::after_answer("p".to_string(), false, false), Some("p".to_string()));
}
