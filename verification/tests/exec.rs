use awspm::config::Store;
use awspm::error::AppError;
use awspm::exec::{CommandExecutor, EnvVar, ExecCheck, ExecLogic};
use awspm::interaction::InteractionHandler;
use std::cell::RefCell;
use awspm::metadata::{GlobalConfig, MetadataStore};
use awspm::policy::ProfileSafetyPolicy;
use awspm::sso::SsoStatus;
use awspm::types::Metadata;

fn store(config: &str, global: GlobalConfig) -> Store {
    Store::from_sources(
        Some(config.to_string()),
        None,
        None,
        false,
        MetadataStore { config: global, profiles: Vec::new() },
        None,
    )
}

fn pairs(v: &[EnvVar]) -> Vec<(String, String)> {
    v.iter().map(|e| (e.key.clone(), e.value.clone())).collect()
}

fn strings(v: &[&str]) -> Vec<String> {
    v.iter().map(|s| s.to_string()).collect()
}

#[test]
fn test_exec_runs_command_with_env_vars() {
    let mut store = store("[profile production]\nregion=us-east-1\n[profile dev]\nregion=us-west-2", GlobalConfig::default());
    let mut meta = Metadata::default();
    meta.tags.push("production".to_string());
    store.save_metadata("production", meta);
    let policy = ProfileSafetyPolicy::new(store.get_global_config().sensitive_keywords);

    let args = strings(&["sh", "-c", "echo AWS_PROFILE=$AWS_PROFILE"]);
    let profile = match ExecLogic::check(&store, &policy, "dev", &args, false) {
        Ok(ExecCheck::Proceed(p)) => p,
        _ => panic!("dev is not sensitive"),
    };
    let plan = ExecLogic::plan(&profile, "dev", &args, false);
    assert_eq!(plan.program, "sh");
    assert_eq!(plan.args, strings(&["-c", "echo AWS_PROFILE=$AWS_PROFILE"]));
    assert_eq!(
        pairs(&plan.env_vars),
        vec![("AWS_PROFILE".to_string(), "dev".to_string()), ("AWS_REGION".to_string(), "us-west-2".to_string())]
    );
    // The tagged profile asks first.
    assert!(matches!(ExecLogic::check(&store, &policy, "production", &args, false), Ok(ExecCheck::Confirm(_))));
}

#[test]
fn test_exec_unsets_aws_env_vars() {
    let store = store("[profile default]\nregion = us-west-1\n", GlobalConfig::default());
    let profile = store.find_by_name("default").unwrap();
    let plan = ExecLogic::plan(&profile, "default", &strings(&["env"]), false);
    assert_eq!(plan.remove_env_vars, strings(&["AWS_ACCESS_KEY_ID", "AWS_SECRET_ACCESS_KEY", "AWS_SESSION_TOKEN"]));
    assert!(pairs(&plan.env_vars).contains(&("AWS_PROFILE".to_string(), "default".to_string())));
    let kept = ExecLogic::plan(&profile, "default", &strings(&["env"]), true);
    assert!(kept.remove_env_vars.is_empty());
    assert!(kept.args.is_empty());
}

#[test]
fn test_sensitive_exec_aborts_non_interactive() {
    let store = store("[profile production]\nregion=us-east-1", GlobalConfig::default());
    let policy = ProfileSafetyPolicy::new(None);
    let args = strings(&["echo", "DANGEROUS_ACTION"]);
    assert!(matches!(ExecLogic::check(&store, &policy, "production", &args, false), Ok(ExecCheck::Confirm(_))));
    // Without a confirmation (no terminal to ask on) the command does not run.
    assert_eq!(
        ExecLogic::after_confirmation(false),
        Err(AppError::Unknown("Aborted by user or policy.".to_string()))
    );
    assert_eq!(ExecLogic::after_confirmation(true), Ok(()));
}

#[test]
fn test_sensitive_exec_bypasses_with_yes() {
    let store = store("[profile production]\nregion=us-east-1", GlobalConfig::default());
    let policy = ProfileSafetyPolicy::new(None);
    let args = strings(&["echo", "ALLOWED_ACTION"]);
    assert!(matches!(ExecLogic::check(&store, &policy, "production", &args, true), Ok(ExecCheck::Proceed(_))));
}

#[test]
fn test_custom_guardrails_policy() {
    let global = GlobalConfig { sensitive_keywords: Some(vec!["custom-sensitive".to_string()]), sso_cache_path: None };
    let store = store("[profile production]\n[profile custom-sensitive]\n", global);
    let policy = ProfileSafetyPolicy::new(store.get_global_config().sensitive_keywords);
    let args = strings(&["echo", "SAFE"]);
    assert!(matches!(ExecLogic::check(&store, &policy, "production", &args, false), Ok(ExecCheck::Proceed(_))));
    assert!(matches!(ExecLogic::check(&store, &policy, "custom-sensitive", &args, false), Ok(ExecCheck::Confirm(_))));
}

type ExecData = (String, Vec<String>, Vec<(String, String)>, Vec<String>);

struct MockExecutor {
    last_run: RefCell<Option<ExecData>>,
}

impl CommandExecutor for MockExecutor {
    fn run(&self, program: &str, args: &[String], env_vars: &[EnvVar], remove_env_vars: &[String]) -> Result<i32, AppError> {
        *self.last_run.borrow_mut() =
            Some((program.to_string(), args.to_vec(), pairs(env_vars), remove_env_vars.to_vec()));
        Ok(0)
    }
}

struct Answer(bool);

impl InteractionHandler for Answer {
    fn confirm_sensitive_action(&self, _profile_name: &str) -> bool {
        self.0
    }
}

#[test]
fn test_execute_logic_happy_path() {
    let store = store("[profile test-profile]\nregion=us-test-1", GlobalConfig::default());
    let policy = ProfileSafetyPolicy::new(None);
    let executor = MockExecutor { last_run: RefCell::new(None) };
    let args = vec!["echo".to_string(), "hello".to_string()];

    let result = ExecLogic::execute(&executor, &Answer(false), &store, &policy, "test-profile".to_string(), args, false, false);

    assert!(result.is_ok(), "Execution failed: {:?}", result.err());

    let run_data = executor.last_run.borrow();
    assert!(run_data.is_some(), "Executor was not called!");
    let (program, cmd_args, envs, removed) = run_data.as_ref().unwrap();

    assert_eq!(program, "echo");
    assert_eq!(cmd_args, &vec!["hello".to_string()]);
    assert!(envs.contains(&("AWS_PROFILE".to_string(), "test-profile".to_string())));
    assert!(envs.contains(&("AWS_REGION".to_string(), "us-test-1".to_string())));

    assert!(removed.contains(&"AWS_ACCESS_KEY_ID".to_string()));
}

#[test]
fn execute_asks_before_a_sensitive_profile() {
    let store = store("[profile production]\n", GlobalConfig::default());
    let policy = ProfileSafetyPolicy::new(None);
    let args = vec!["echo".to_string(), "x".to_string()];
    let refused = MockExecutor { last_run: RefCell::new(None) };
    assert_eq!(
        ExecLogic::execute(&refused, &Answer(false), &store, &policy, "production".to_string(), args.clone(), false, false),
        Err(AppError::Unknown("Aborted by user or policy.".to_string()))
    );
    assert!(refused.last_run.borrow().is_none());
    let confirmed = MockExecutor { last_run: RefCell::new(None) };
    assert_eq!(
        ExecLogic::execute(&confirmed, &Answer(true), &store, &policy, "production".to_string(), args, false, false),
        Ok(0)
    );
    assert!(confirmed.last_run.borrow().is_some());
}

#[test]
fn exec_errors() {
    let store = store("[profile a]\n", GlobalConfig::default());
    let policy = ProfileSafetyPolicy::new(None);
    assert!(matches!(
        ExecLogic::check(&store, &policy, "a", &vec![], false),
        Err(AppError::Unknown(s)) if s == "No command specified"
    ));
    assert!(matches!(
        ExecLogic::check(&store, &policy, "b", &strings(&["ls"]), false),
        Err(AppError::ProfileNotFound(s)) if s == "b"
    ));
}

#[test]
fn sso_warning_only_when_expired() {
    assert_eq!(
        ExecLogic::sso_warning(SsoStatus::Expired, "p"),
        Some("Warning: SSO session for 'p' is expired.".to_string())
    );
    assert_eq!(ExecLogic::sso_warning(SsoStatus::Active, "p"), None);
}
