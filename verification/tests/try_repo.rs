use prek::try_repo::{ignored_config_warning, ls_remote_head, try_repo_config};

#[test]
fn head_from_ls_remote() {
    assert_eq!(ls_remote_head("abc123\tHEAD\n").unwrap(), "abc123");
    assert_eq!(
        ls_remote_head(" \n").unwrap_err(),
        "Failed to parse HEAD revision from git ls-remote output"
    );
}

#[test]
fn try_repo_configuration() {
    let ids = vec!["a".to_string(), "b".to_string()];
    assert_eq!(
        try_repo_config("/repo", "abc", &ids),
        "repos:\n  - repo: /repo\n    rev: abc\n    hooks:\n      - id: a\n      - id: b\n"
    );
    assert_eq!(try_repo_config("r", "v", &vec![]), "repos:\n  - repo: r\n    rev: v\n    hooks:\n\n");
    assert_eq!(ignored_config_warning(), "`--config` option is ignored when using `try-repo`");
}
