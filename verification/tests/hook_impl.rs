use prek::config::HookType;
use prek::hook_impl::{
    check_hook_args, format_argument_dump, format_expected_args, format_received_args,
    is_all_zeros, outdated_script_warning, parse_push_line, push_step, to_run_args, PushAction,
    PushInfo, PushQuery, PushState,
};

fn s(v: &[&str]) -> Vec<String> {
    v.iter().map(|x| x.to_string()).collect()
}

#[test]
fn push_line_fields() {
    let l = parse_push_line("refs/heads/main 1111 refs/heads/main 0000").unwrap();
    assert_eq!(l.local_branch, "refs/heads/main");
    assert_eq!(l.local_sha, "1111");
    assert_eq!(l.remote_branch, "refs/heads/main");
    assert_eq!(l.remote_sha, "0000");
    let l = parse_push_line("a b c d e").unwrap();
    assert_eq!((l.local_branch.as_str(), l.local_sha.as_str()), ("a b", "c"));
    assert!(parse_push_line("a b c").is_none());
    let l = parse_push_line("   ").unwrap();
    assert_eq!(l.remote_sha, "");
}

#[test]
fn zeros() {
    assert!(is_all_zeros("0000"));
    assert!(is_all_zeros(""));
    assert!(!is_all_zeros("0001"));
}

fn push_info(a: PushAction) -> PushInfo {
    match a {
        PushAction::Push(p) => p,
        other => panic!("expected a push, got {other:?}"),
    }
}

#[test]
fn push_steps() {
    let line = parse_push_line("main abc main def").unwrap();
    match push_step(&line, "origin", PushState::Start) {
        PushAction::Ask(PushQuery::RevExists { rev }) => assert_eq!(rev, "def"),
        other => panic!("unexpected {other:?}"),
    }
    let p = push_info(push_step(&line, "origin", PushState::RemoteRevExists(true)));
    assert_eq!(p.from_ref.as_deref(), Some("def"));
    assert_eq!(p.to_ref.as_deref(), Some("abc"));
    assert!(!p.all_files);
    match push_step(&line, "origin", PushState::RemoteRevExists(false)) {
        PushAction::Ask(PushQuery::AncestorsNotInRemote { local_sha, remote_name }) => {
            assert_eq!((local_sha.as_str(), remote_name.as_str()), ("abc", "origin"))
        }
        other => panic!("unexpected {other:?}"),
    }
    assert!(matches!(push_step(&line, "origin", PushState::Ancestors(vec![])), PushAction::NextLine));
    match push_step(&line, "origin", PushState::Ancestors(s(&["a1", "a2"]))) {
        PushAction::Ask(PushQuery::RootCommits { local_sha, first_ancestor }) => {
            assert_eq!((local_sha.as_str(), first_ancestor.as_str()), ("abc", "a1"))
        }
        other => panic!("unexpected {other:?}"),
    }
    let p = push_info(push_step(
        &line,
        "origin",
        PushState::Roots { first_ancestor: "a1".to_string(), roots: s(&["a1"]) },
    ));
    assert!(p.all_files && p.from_ref.is_none());
    match push_step(&line, "origin", PushState::Roots { first_ancestor: "a1".to_string(), roots: s(&["r"]) }) {
        PushAction::Ask(PushQuery::ParentCommit { commit }) => assert_eq!(commit, "a1"),
        other => panic!("unexpected {other:?}"),
    }
    let p = push_info(push_step(&line, "origin", PushState::Parent(Some("p0".to_string()))));
    assert_eq!(p.from_ref.as_deref(), Some("p0"));
    assert_eq!(p.remote_branch.as_deref(), Some("main"));
    assert!(matches!(push_step(&line, "origin", PushState::Parent(None)), PushAction::NextLine));
}

#[test]
fn push_of_new_branch_asks_for_ancestors() {
    let line = parse_push_line("main abc main 0000000").unwrap();
    assert!(matches!(
        push_step(&line, "origin", PushState::Start),
        PushAction::Ask(PushQuery::AncestorsNotInRemote { .. })
    ));
    let deleted = parse_push_line("main 000 main abc").unwrap();
    assert!(matches!(push_step(&deleted, "origin", PushState::Start), PushAction::NextLine));
}

#[test]
fn run_args_for_hooks() {
    let r = to_run_args(HookType::CommitMsg, &s(&["MSG"]), None).unwrap();
    assert_eq!(r.extra.commit_msg_filename.as_deref(), Some("MSG"));
    let r = to_run_args(HookType::PrepareCommitMsg, &s(&["MSG", "message", "sha"]), None).unwrap();
    assert_eq!(r.extra.prepare_commit_message_source.as_deref(), Some("message"));
    assert_eq!(r.extra.commit_object_name.as_deref(), Some("sha"));
    let r = to_run_args(HookType::PostCheckout, &s(&["a", "b", "1"]), None).unwrap();
    assert_eq!((r.from_ref.as_deref(), r.to_ref.as_deref()), (Some("a"), Some("b")));
    assert_eq!(r.extra.checkout_type.as_deref(), Some("1"));
    assert!(to_run_args(HookType::PostMerge, &s(&["1"]), None).unwrap().extra.is_squash_merge);
    assert!(!to_run_args(HookType::PostMerge, &s(&["0"]), None).unwrap().extra.is_squash_merge);
    assert!(to_run_args(HookType::PrePush, &s(&["origin", "url"]), None).is_none());
    let push = PushInfo {
        from_ref: Some("x".to_string()),
        to_ref: Some("y".to_string()),
        all_files: false,
        remote_branch: Some("rb".to_string()),
        local_branch: Some("lb".to_string()),
    };
    let r = to_run_args(HookType::PrePush, &s(&["origin", "url"]), Some(push)).unwrap();
    assert_eq!(r.extra.remote_name.as_deref(), Some("origin"));
    assert_eq!(r.extra.remote_url.as_deref(), Some("url"));
    assert_eq!(r.to_ref.as_deref(), Some("y"));
    let r = to_run_args(HookType::PreCommit, &vec![], None).unwrap();
    assert!(r.from_ref.is_none() && !r.all_files);
}

#[test]
fn argument_messages() {
    assert_eq!(format_expected_args(0..=0), "no arguments");
    assert_eq!(format_expected_args(1..=1), "exactly 1 argument");
    assert_eq!(format_expected_args(2..=2), "exactly 2 arguments");
    assert_eq!(format_expected_args(0..=2), "up to 2 arguments");
    assert_eq!(format_expected_args(1..=usize::MAX), "at least 1 arguments");
    assert_eq!(format_expected_args(1..=3), "between 1 and 3 arguments");
    assert_eq!(format_received_args(0), "no arguments");
    assert_eq!(format_received_args(1), "1 argument");
    assert_eq!(format_received_args(5), "5 arguments");
    assert_eq!(format_argument_dump(&vec![]), "");
    assert_eq!(format_argument_dump(&s(&["a", "b"])), ": `a b`");
}

#[test]
fn wrong_argument_count() {
    assert!(check_hook_args(HookType::CommitMsg, &s(&["m"])).is_ok());
    assert_eq!(
        check_hook_args(HookType::CommitMsg, &vec![]).unwrap_err(),
        "hook `commit-msg` expects exactly 1 argument but received no arguments"
    );
}

#[test]
fn outdated_script() {
    assert_eq!(outdated_script_warning(HookType::PreCommit, Some(4)), None);
    assert_eq!(
        outdated_script_warning(HookType::PreCommit, None).unwrap(),
        "The installed hook script `pre-commit` is outdated (version: 1, expected: 4). Please reinstall the hooks with `prek install`."
    );
}
