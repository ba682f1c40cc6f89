use prek::workspace::{
    selected_projects, walk_step, DirOutcome, WalkStep, cache_file_name, cache_is_valid, check_configs_staged, find_root_index, git_add_command,
    project_display, project_order, select_config, url_order, use_cache, FileStamp,
    WorkspaceError, CACHE_VERSION,
};

fn s(v: &[&str]) -> Vec<String> {
    v.iter().map(|x| x.to_string()).collect()
}

#[test]
fn root_is_nearest_config_below_git_root_parent() {
    let ancestors = s(&["/r/a/b", "/r/a", "/r", "/"]);
    assert_eq!(find_root_index(&ancestors, Some("/"), &vec![false, true, true, true]).unwrap(), 1);
    assert_eq!(find_root_index(&ancestors, Some("/"), &vec![true, true, false, false]).unwrap(), 0);
    // Configurations above the git root are not looked at.
    assert!(matches!(
        find_root_index(&ancestors, Some("/r"), &vec![false, false, true, true]),
        Err(WorkspaceError::MissingConfigFile)
    ));
    assert_eq!(find_root_index(&ancestors, None, &vec![false, false, false, true]).unwrap(), 3);
}

#[test]
fn hook_not_found_message() {
    let e = WorkspaceError::HookNotFound { hook: "h".to_string(), repo: "https://x@v1".to_string() };
    assert_eq!(e.message("hint:"), "Hook `h` not present in repo `https://x@v1`");
}

#[test]
fn config_file_selection() {
    assert_eq!(select_config([false, false, false], "x"), None);
    assert_eq!(select_config([false, true, false], "dir/.pre-commit-config.yaml"), Some((1, None)));
    assert_eq!(
        select_config([true, true, false], "dir/prek.toml"),
        Some((0, Some("Multiple configuration files found (`prek.toml`, `.pre-commit-config.yaml`); using `dir/prek.toml`".to_string())))
    );
    assert_eq!(
        select_config([false, true, true], "d/.pre-commit-config.yaml"),
        Some((1, Some("Multiple configuration files found (`.pre-commit-config.yaml`, `.pre-commit-config.yml`); using `d/.pre-commit-config.yaml`".to_string())))
    );
}

#[test]
fn project_names() {
    assert_eq!(project_display(""), ".");
    assert_eq!(project_display("app/lib"), "app/lib");
}

#[test]
fn deeper_projects_first_then_by_path() {
    let paths = vec![s(&[]), s(&["project2"]), s(&["project3"]), s(&["nested", "project4"]), s(&["project3", "project5"])];
    let order = project_order(&paths);
    assert_eq!(order, vec![3, 4, 1, 2, 0]);
}

#[test]
fn path_order_by_parts() {
    let paths = vec![s(&["b"]), s(&["a-b"]), s(&["a"])];
    assert_eq!(project_order(&paths), vec![2, 1, 0]);
}

#[test]
fn urls_sorted() {
    let urls = s(&["https://b", "https://a", "https://b", "https://a/x"]);
    assert_eq!(url_order(&urls), vec![1, 3, 0, 2]);
}

fn stamp(secs: u64, size: u64) -> FileStamp {
    FileStamp { modified_secs: secs, modified_nanos: 0, size }
}

#[test]
fn cache_validity() {
    let same = vec![(stamp(1, 10), Some(stamp(1, 10)))];
    assert!(cache_is_valid(Some(10), &same, true));
    assert!(cache_is_valid(None, &same, true));
    assert!(!cache_is_valid(Some(3601), &same, true));
    assert!(cache_is_valid(Some(3600), &same, true));
    assert!(!cache_is_valid(Some(1), &vec![(stamp(1, 10), Some(stamp(2, 10)))], true));
    assert!(!cache_is_valid(Some(1), &vec![(stamp(1, 10), Some(stamp(1, 11)))], true));
    assert!(!cache_is_valid(Some(1), &vec![(stamp(1, 10), None)], true));
    assert!(!cache_is_valid(Some(1), &same, false));
    assert!(use_cache(false, CACHE_VERSION, Some(1), &same, true));
    assert!(!use_cache(true, CACHE_VERSION, Some(1), &same, true));
    assert!(!use_cache(false, 2, Some(1), &same, true));
}

#[test]
fn cache_names_are_hex_of_the_hash() {
    assert_eq!(cache_file_name(0), "0000000000000000");
    assert_eq!(cache_file_name(0x0102030405060708), "0807060504030201");
    assert_eq!(cache_file_name(u64::MAX), "ffffffffffffffff");
    assert_eq!(cache_file_name(0xab), "ab00000000000000");
}

#[test]
fn unstaged_configs() {
    assert!(check_configs_staged(&vec![], "x").is_ok());
    assert_eq!(git_add_command("/r/.pre-commit-config.yaml"), "git add /r/.pre-commit-config.yaml");
    assert_eq!(
        check_configs_staged(&s(&["/r/c.yaml"]), "git add /r/c.yaml").unwrap_err(),
        "prek configuration file is not staged, run `git add /r/c.yaml` to stage it"
    );
    assert_eq!(
        check_configs_staged(&s(&["/r/a.yaml", "/r/b/c.yaml"]), "unused").unwrap_err(),
        "The following configuration files are not staged, `git add` them first:\n  /r/a.yaml\n  /r/b/c.yaml"
    );
}

#[test]
fn walk_steps() {
    assert_eq!(walk_step(DirOutcome::Project, true), WalkStep::Continue);
    assert_eq!(walk_step(DirOutcome::NoConfig, false), WalkStep::Continue);
    assert_eq!(walk_step(DirOutcome::Failed, true), WalkStep::Quit);
    assert_eq!(walk_step(DirOutcome::Failed, false), WalkStep::Skip);
}

#[test]
fn project_selection() {
    assert_eq!(selected_projects(3, None).unwrap(), vec![0, 1, 2]);
    assert_eq!(selected_projects(3, Some(&vec![false, true, true])).unwrap(), vec![1, 2]);
    assert!(matches!(selected_projects(2, Some(&vec![false, false])), Err(WorkspaceError::MissingConfigFile)));
    assert!(matches!(selected_projects(0, None), Err(WorkspaceError::MissingConfigFile)));
}
