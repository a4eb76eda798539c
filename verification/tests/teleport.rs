use aster::teleport::{
    compare_repo_urls, git_output_text, normalize_repo_url, porcelain_is_clean, repo_validation_result,
    RepoValidationStatus,
};

#[test]
fn repo_urls_normalise() {
    assert_eq!(normalize_repo_url("git@github.com:User/Repo.git"), "https://github.com/user/repo");
    assert_eq!(normalize_repo_url(" https://github.com/User/Repo/ "), "https://github.com/user/repo");
    assert!(compare_repo_urls("git@github.com:a/b.git", "https://github.com/A/B"));
    assert!(!compare_repo_urls("https://github.com/a/b", "https://github.com/a/c"));
}

#[test]
fn repo_validation() {
    let r = repo_validation_result(None, None);
    assert_eq!(r.status, RepoValidationStatus::NoValidation);
    let r = repo_validation_result(Some("https://github.com/a/b"), None);
    assert_eq!(r.status, RepoValidationStatus::Error);
    assert_eq!(r.error_message.as_deref(), Some("当前目录不是 git 仓库"));
    let r = repo_validation_result(Some("git@github.com:a/b.git"), Some("https://github.com/a/b".to_string()));
    assert_eq!(r.status, RepoValidationStatus::Match);
    let r = repo_validation_result(Some("https://github.com/a/b"), Some("https://github.com/x/y".to_string()));
    assert_eq!(r.status, RepoValidationStatus::Mismatch);
    assert_eq!(r.current_repo.as_deref(), Some("https://github.com/x/y"));
}

#[test]
fn git_outputs() {
    assert_eq!(git_output_text(true, b"  main\n"), Some("main".to_string()));
    assert_eq!(git_output_text(true, b" \n"), None);
    assert_eq!(git_output_text(false, b"main"), None);
    assert!(porcelain_is_clean(true, b"\n"));
    assert!(!porcelain_is_clean(true, b" M src/lib.rs\n"));
    assert!(!porcelain_is_clean(false, b""));
}
