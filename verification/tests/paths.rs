use awspm::error::AppError;
use awspm::paths::{StorePaths, expand_tilde, expand_tilde_with_home};

#[test]
fn test_expand_tilde() {
    if let Some(home) = dirs::home_dir() {
        assert_eq!(expand_tilde("~"), home.to_string_lossy().to_string());
        assert_eq!(expand_tilde("~/some/path"), home.join("some/path").to_string_lossy().to_string());
    }

    assert_eq!(expand_tilde("/absolute/path"), "/absolute/path".to_string());
    assert_eq!(expand_tilde("relative/path"), "relative/path".to_string());
}

#[test]
fn expand_tilde_given_home() {
    let home = Some("/home/me".to_string());
    assert_eq!(expand_tilde_with_home("~", home.clone()), "/home/me");
    assert_eq!(expand_tilde_with_home("~/a/b", home.clone()), "/home/me/a/b");
    assert_eq!(expand_tilde_with_home("~/~/a", home.clone()), "/home/me/a");
    assert_eq!(expand_tilde_with_home("~user/x", home.clone()), "~user/x");
    assert_eq!(expand_tilde_with_home("~/a", None), "~/a");
}

#[test]
fn joining_paths() {
    let p = StorePaths::resolve(Some("/a/".to_string()), None, None, None).unwrap();
    assert_eq!(p.metadata, "/a/.awspm.yaml");
    assert_eq!(expand_tilde_with_home("~//abs", Some("/home/me".to_string())), "/abs");
}

#[test]
fn store_paths_default_under_home() {
    let p = StorePaths::resolve(Some("/home/me".to_string()), None, None, None).unwrap();
    assert_eq!(p.aws_config, "/home/me/.aws/config");
    assert_eq!(p.aws_credentials, "/home/me/.aws/credentials");
    assert_eq!(p.metadata, "/home/me/.awspm.yaml");
    let q = StorePaths::resolve(
        Some("/home/me".to_string()),
        Some("/c".to_string()),
        Some("/k".to_string()),
        Some("/m.yaml".to_string()),
    )
    .unwrap();
    assert_eq!(q.aws_config, "/c");
    assert_eq!(q.aws_credentials, "/k");
    assert_eq!(q.metadata, "/m.yaml");
    assert!(matches!(StorePaths::resolve(None, Some("/c".to_string()), None, None), Err(AppError::HomeDirNotFound)));
}
