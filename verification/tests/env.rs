use awspm::config::Store;
use awspm::env::{EnvCommand, EnvLogic};
use awspm::error::AppError;
use awspm::exec::ExecLogic;
use awspm::metadata::{GlobalConfig, MetadataStore};
use awspm::types::{Metadata, Profile};

fn store_with_config(config: &str) -> Store {
    Store::from_sources(
        Some(config.to_string()),
        None,
        None,
        false,
        MetadataStore { config: GlobalConfig::default(), profiles: Vec::new() },
        None,
    )
}

#[test]
fn test_generate_exports() {
    // Setup simple profile
    let p = Profile::new("test-env".to_string());

    let exports = EnvLogic::generate_exports(&p);
    assert!(exports.contains(&"export AWS_PROFILE=test-env".to_string()));
}

#[test]
fn test_generate_exports_with_region() {
    let mut p = Profile::new("test-env".to_string());
    p.metadata = Some(Metadata {
        region: Some("us-test-1".to_string()),
        ..Default::default()
    });

    let exports = EnvLogic::generate_exports(&p);
    assert!(exports.contains(&"export AWS_PROFILE=test-env".to_string()));
    assert!(
        exports.contains(&"export AWS_REGION=us-test-1".to_string()),
        "Should export region override"
    );
}

#[test]
fn generate_exports_prefers_metadata_region() {
    let mut p = Profile::new("p".to_string());
    p.region = Some("eu-west-1".to_string());
    assert_eq!(
        EnvLogic::generate_exports(&p),
        vec!["export AWS_PROFILE=p".to_string(), "export AWS_REGION=eu-west-1".to_string()]
    );
    p.metadata = Some(Metadata { region: Some("us-east-2".to_string()), ..Default::default() });
    assert_eq!(
        EnvLogic::generate_exports(&p),
        vec!["export AWS_PROFILE=p".to_string(), "export AWS_REGION=us-east-2".to_string()]
    );
}

#[test]
fn generate_exports_without_region() {
    let p = Profile::new("plain".to_string());
    assert_eq!(EnvLogic::generate_exports(&p), vec!["export AWS_PROFILE=plain".to_string()]);
}

#[test]
fn test_env_command_outputs_exports() {
    let store = store_with_config("[profile my-env-test]\nregion = us-env-1\n");
    let lines = EnvCommand::execute(&store, "my-env-test").unwrap();
    assert!(lines.contains(&"export AWS_PROFILE=my-env-test".to_string()));
    assert!(lines.contains(&"export AWS_REGION=us-env-1".to_string()));
    assert_eq!(lines.len(), 2);
}

#[test]
fn env_command_unknown_profile_is_an_error() {
    let store = store_with_config("[profile a]\n");
    assert_eq!(
        EnvCommand::execute(&store, "missing"),
        Err(AppError::ProfileNotFound("missing".to_string()))
    );
}

#[test]
fn exports_agree_with_exec_environment() {
    let mut p = Profile::new("agree".to_string());
    p.region = Some("eu-north-1".to_string());
    let exports = EnvLogic::generate_exports(&p);
    let plan = ExecLogic::plan(&p, "agree", &vec!["true".to_string()], false);
    let from_plan: Vec<String> =
        plan.env_vars.iter().map(|v| format!("export {}={}", v.key, v.value)).collect();
    assert_eq!(exports, from_plan);
}
