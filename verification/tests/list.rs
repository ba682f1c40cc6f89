use prek::config::Config;
use prek::hook::HookRepo;
use prek::project::{build_hooks, project_hook_builders};
use prek::workspace::{find_root_index, WorkspaceError};

fn empty_config() -> Config {
    Config {
        repos: vec![],
        default_install_hook_types: None,
        default_language_version: None,
        default_stages: None,
        files: None,
        exclude: None,
        fail_fast: None,
        minimum_prek_version: None,
        orphan: None,
        unused_keys: vec![],
    }
}

#[test]
fn list_empty_config() {
    // `repos: []` lists no hook, with or without `--verbose`.
    let config = empty_config();
    let repos: Vec<HookRepo> = vec![];
    let builders = project_hook_builders(&config, &repos, "", &vec![]).unwrap();
    assert!(builders.is_empty());
    let hooks = build_hooks(builders, &vec![]).unwrap();
    assert!(hooks.is_empty());

    let verbose_builders = project_hook_builders(&config, &repos, "", &vec![]).unwrap();
    assert_eq!(verbose_builders.len(), 0);
}

#[test]
fn list_no_config_file() {
    let ancestors = vec![
        "/home/user/repo".to_string(),
        "/home/user".to_string(),
        "/home".to_string(),
        "/".to_string(),
    ];
    let has_config = vec![false, false, false, false];
    let err = find_root_index(&ancestors, Some("/home/user"), &has_config).unwrap_err();
    assert!(matches!(err, WorkspaceError::MissingConfigFile));
    assert_eq!(
        err.message("hint:"),
        "No `prek.toml` or `.pre-commit-config.yaml` found in the current directory or parent directories.\n\nhint: If you just added one, rerun your command with the `--refresh` flag to rescan the workspace."
    );
}
