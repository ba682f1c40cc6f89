use prek::config::HookType;
use prek::install::{
    existing_hook_action, get_hook_types, hook_script_args, ignored_skip_env_warning,
    install_hint, is_our_script, legacy_path, render_hook_script, template_dir_warning,
    uninstall_action, uninstall_text, ExistingHook, ProjectPlace, Uninstall,
};

fn place(relative: &str, is_git_root: bool) -> ProjectPlace {
    ProjectPlace {
        relative: relative.to_string(),
        shown: format!("/repo/{relative}"),
        git_root_shown: "/repo".to_string(),
        is_git_root,
    }
}

#[test]
fn hook_types_default_to_pre_commit() {
    assert_eq!(get_hook_types(vec![], None), vec![HookType::PreCommit]);
    assert_eq!(get_hook_types(vec![], Some(vec![])), vec![HookType::PreCommit]);
    assert_eq!(
        get_hook_types(vec![], Some(vec![HookType::PrePush, HookType::CommitMsg])),
        vec![HookType::PrePush, HookType::CommitMsg]
    );
    assert_eq!(
        get_hook_types(vec![HookType::PostMerge], Some(vec![HookType::PrePush])),
        vec![HookType::PostMerge]
    );
}

#[test]
fn script_args_with_config() {
    let args = hook_script_args(
        &vec!["--include=a".to_string()],
        &vec!["--skip=b".to_string()],
        HookType::PreCommit,
        Some("cfg.yaml"),
        Some(&place("sub", false)),
        true,
    );
    assert_eq!(
        args,
        vec![
            "hook-impl",
            "--include=a",
            "--skip=b",
            "--hook-type=pre-commit",
            "--config=\"cfg.yaml\"",
            "--skip-on-missing-config",
            "--script-version=4"
        ]
    );
}

#[test]
fn script_args_for_workspace_project() {
    let args = hook_script_args(&vec![], &vec![], HookType::PrePush, None, Some(&place("sub/dir", false)), false);
    assert_eq!(args, vec!["hook-impl", "--hook-type=pre-push", "--cd=\"sub/dir\"", "--script-version=4"]);
    let args = hook_script_args(&vec![], &vec![], HookType::PrePush, None, Some(&place("", true)), false);
    assert_eq!(args, vec!["hook-impl", "--hook-type=pre-push", "--script-version=4"]);
    let args = hook_script_args(&vec![], &vec![], HookType::CommitMsg, None, None, false);
    assert_eq!(args, vec!["hook-impl", "--hook-type=commit-msg", "--script-version=4"]);
}

#[test]
fn rendered_script() {
    let args = vec!["hook-impl".to_string(), "--hook-type=pre-commit".to_string()];
    let script = render_hook_script(false, &args, "/usr/bin/prek");
    let expected = "#!/usr/bin/env bash
# File generated by prek: https://github.com/j178/prek
# ID: 182c10f181da4464a3eec51b83331688

ARGS=(hook-impl --hook-type=pre-commit)

HERE=\"$(cd \"$(dirname \"$0\")\" && pwd)\"
ARGS+=(--hook-dir \"$HERE\" -- \"$@\")
PREK=\"/usr/bin/prek\"

# Check if the full path to prek is executable, otherwise fallback to PATH
if [ ! -x \"$PREK\" ]; then
    PREK=\"prek\"
fi

exec \"$PREK\" \"${ARGS[@]}\"

";
    assert_eq!(script, expected);
    assert!(is_our_script(&script));
    let windows = render_hook_script(true, &args, "C:/prek.exe");
    assert!(windows.starts_with("#!/bin/sh\n"));
    assert!(is_our_script(&windows));
}

#[test]
fn foreign_script_is_not_ours() {
    assert!(!is_our_script("#!/bin/sh\necho hi\n"));
    assert!(is_our_script("x 182c10f181da4464a3eec51b83331688 y"));
}

#[test]
fn existing_hooks() {
    assert_eq!(existing_hook_action(false, true, false), ExistingHook::WriteOver);
    assert_eq!(existing_hook_action(true, true, false), ExistingHook::Overwrite);
    assert_eq!(existing_hook_action(true, false, false), ExistingHook::MoveToLegacy);
    assert_eq!(existing_hook_action(true, false, true), ExistingHook::WriteOver);
    assert_eq!(legacy_path(".git/hooks/pre-commit"), ".git/hooks/pre-commit.legacy");
}

#[test]
fn install_messages() {
    assert_eq!(install_hint("h", None, None, "hint:"), "prek installed at `h`");
    assert_eq!(
        install_hint("h", Some("c.yaml"), Some(&place("sub", false)), "hint:"),
        "prek installed at `h` with specified config `c.yaml`"
    );
    assert_eq!(install_hint("h", None, Some(&place("", true)), "hint:"), "prek installed at `h`");
    assert_eq!(
        install_hint("h", None, Some(&place("sub", false)), "hint:"),
        "prek installed at `h` for workspace `/repo/sub`\n\nhint: this hook installed for `/repo/sub` only; run `prek install` from `/repo` to install for the entire repo."
    );
    assert_eq!(
        ignored_skip_env_warning("SKIP"),
        "Skip selectors from environment variables `SKIP` are ignored during installing hooks."
    );
}

#[test]
fn uninstall_decisions() {
    assert_eq!(uninstall_action(false, false), Uninstall::Missing);
    assert_eq!(uninstall_action(true, false), Uninstall::NotOurs);
    assert_eq!(uninstall_action(true, true), Uninstall::Remove);
    assert_eq!(uninstall_text(&Uninstall::Missing, "p", "pre-commit"), "`p` does not exist, skipping.");
    assert_eq!(uninstall_text(&Uninstall::NotOurs, "p", "pre-commit"), "`p` is not managed by prek, skipping.");
    assert_eq!(uninstall_text(&Uninstall::Remove, "p", "pre-commit"), "Uninstalled `pre-commit`");
}

#[test]
fn template_dir_warnings() {
    assert_eq!(template_dir_warning("/t", true, "/t"), None);
    assert_eq!(
        template_dir_warning("", true, "/t"),
        Some("git config `init.templateDir` not set to the target directory, try `git config --global init.templateDir '/t'`".to_string())
    );
    assert!(template_dir_warning("/other", false, "/t").is_some());
}
