use awspm::cli::{search_target_of, sync_warning};
use awspm::config::SyncStatus;
use awspm::current::CurrentCommand;
use awspm::error::AppError;
use awspm::init::InitCommand;
use awspm::interaction::RealInteractionHandler;
use awspm::search::SearchTarget;
use awspm::text::decimal_string;
use awspm::types::Profile;

#[test]
fn search_targets() {
    assert_eq!(search_target_of("tags"), SearchTarget::Tags);
    assert_eq!(search_target_of("aliases"), SearchTarget::Aliases);
    assert_eq!(search_target_of("name"), SearchTarget::Name);
    assert_eq!(search_target_of("all"), SearchTarget::All);
    assert_eq!(search_target_of("TAGS"), SearchTarget::All);
}

#[test]
fn sync_warning_lines() {
    let clean = SyncStatus { untracked: vec![], orphaned: vec![] };
    assert_eq!(sync_warning(&clean), None);
    let dirty = SyncStatus {
        untracked: vec![Profile::new("a".to_string()), Profile::new("b".to_string())],
        orphaned: vec!["c".to_string()],
    };
    assert_eq!(
        sync_warning(&dirty),
        Some(vec![
            "Warning: Metadata is out of sync with AWS sources (2 untracked, 1 orphaned).".to_string(),
            "Run `awspm sync` to fix.\n".to_string()
        ])
    );
}

#[test]
fn decimal_numerals() {
    assert_eq!(decimal_string(0), "0");
    assert_eq!(decimal_string(7), "7");
    assert_eq!(decimal_string(10), "10");
    assert_eq!(decimal_string(1234567890), "1234567890");
}

#[test]
fn current_profile_precedence() {
    assert_eq!(CurrentCommand::current_profile(true, Some("x".to_string())), "env-vars");
    assert_eq!(CurrentCommand::current_profile(false, Some("x".to_string())), "x");
    assert_eq!(CurrentCommand::current_profile(false, None), "default");
}

#[test]
fn init_writes_only_a_new_file() {
    assert_eq!(InitCommand::execute(true), None);
    assert_eq!(InitCommand::execute(false), Some("profiles: {}\n".to_string()));
}

#[test]
fn error_messages() {
    assert_eq!(AppError::ProfileNotFound("p".to_string()).message(), "Profile not found: p");
    assert_eq!(
        AppError::AmbiguousProfile("s".to_string()).message(),
        "Ambiguous profile reference: 's' matched multiple profiles. Please use the full profile name."
    );
    assert_eq!(AppError::HomeDirNotFound.message(), "Could not determine home directory");
    assert_eq!(AppError::ConfigLoadError("x".to_string()).message(), "Failed to load configuration: x");
    assert_eq!(AppError::ConfigParseError("x".to_string()).message(), "Failed to parse configuration: x");
    assert_eq!(AppError::MetadataAccessError("x".to_string()).message(), "Metadata access error: x");
    assert_eq!(AppError::IoError("x".to_string()).message(), "I/O error: x");
    assert_eq!(AppError::SerializationError("x".to_string()).message(), "Serialization error: x");
    assert_eq!(AppError::Unknown("x".to_string()).message(), "Unknown error: x");
}

#[test]
fn real_handler_constructors() {
    let _a = RealInteractionHandler::new();
    let _b = RealInteractionHandler::default();
}
