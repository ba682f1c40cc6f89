use prek::config::{
    BuiltinHook, BuiltinRepo, Config, Language, LocalRepo, ManifestHook, MetaHook, MetaRepo,
    RemoteHook, RemoteRepo, Repo, Stage,
};
use prek::hook::{
    distinct_strings, resolve_stages, Entry, HookBuilder, HookError, HookOrigin, HookRepo,
    LanguageSupport, Stages,
};
use prek::loading::{fixed_hook_from_config, meta_hook_from_id, FixedHookError, FixedHookKind};
use prek::options::{EnvMap, HookOptions};
use prek::project::{build_hooks, project_hook_builders};
use prek::workspace::WorkspaceError;

const FULL: LanguageSupport = LanguageSupport { install_env: true, dependencies: true, toolchain: true };

fn hook(id: &str, language: Language) -> ManifestHook {
    ManifestHook {
        id: id.to_string(),
        name: format!("{id} name"),
        entry: format!("{id}-entry --flag"),
        language,
        options: HookOptions::default(),
    }
}

fn remote_hook(id: &str) -> RemoteHook {
    RemoteHook { id: id.to_string(), name: None, entry: None, language: None, options: HookOptions::default() }
}

fn config(repos: Vec<Repo>) -> Config {
    Config {
        repos,
        default_install_hook_types: None,
        default_language_version: None,
        default_stages: Some(vec![Stage::PreCommit]),
        files: None,
        exclude: None,
        fail_fast: None,
        minimum_prek_version: None,
        orphan: None,
        unused_keys: vec![],
    }
}

fn origin() -> HookOrigin {
    HookOrigin { repo_label: "local".to_string(), repo_path: None, remote: false, project_path: String::new() }
}

#[test]
fn entries_split_like_a_shell() {
    let e = Entry::new("h".to_string(), "python -m 'my tool'".to_string());
    assert_eq!(e.split().unwrap(), vec!["python", "-m", "my tool"]);
    assert_eq!(e.raw(), "python -m 'my tool'");
    let bad = Entry::new("h".to_string(), "echo 'oops".to_string());
    assert!(matches!(bad.split(), Err(HookError::Hook { .. })));
}

#[test]
fn stages_default_to_all() {
    assert!(matches!(resolve_stages(None), Stages::All));
    let s = resolve_stages(Some(vec![Stage::PrePush]));
    assert!(s.contains(Stage::PrePush) && !s.contains(Stage::PreCommit));
    assert_eq!(s.display(), "pre-push");
    assert_eq!(Stages::All.display(), "all");
}

#[test]
fn distinct_keeps_first() {
    let v: Vec<String> = ["a", "b", "a", "c", "b"].iter().map(|s| s.to_string()).collect();
    assert_eq!(distinct_strings(&v), vec!["a", "b", "c"]);
}

#[test]
fn env_maps() {
    let mut m = EnvMap::new();
    m.insert("A".to_string(), "1".to_string());
    m.insert("B".to_string(), "2".to_string());
    m.insert("A".to_string(), "3".to_string());
    assert_eq!(m.len(), 2);
    assert_eq!(m.get("A").as_deref(), Some("3"));
    let mut other = EnvMap::new();
    other.insert("B".to_string(), "9".to_string());
    m.extend(&other);
    assert_eq!(m.get("B").as_deref(), Some("9"));
    assert_eq!(m.get("C"), None);
}

#[test]
fn options_update_overrides_set_values() {
    let mut base = HookOptions::default();
    base.alias = Some("a".to_string());
    base.verbose = Some(false);
    let mut over = HookOptions::default();
    over.verbose = Some(true);
    over.args = Some(vec!["--x".to_string()]);
    base.update(&over);
    assert_eq!(base.alias.as_deref(), Some("a"));
    assert_eq!(base.verbose, Some(true));
    assert_eq!(base.args, Some(vec!["--x".to_string()]));
}

#[test]
fn builder_fills_defaults() {
    let mut b = HookBuilder::new(origin(), hook("fmt", Language::System), 3);
    b.combine(&config(vec![]));
    let h = b.build(FULL).unwrap();
    assert_eq!(h.idx, 3);
    assert_eq!(h.priority, 3);
    assert_eq!(h.types, vec!["file"]);
    assert!(h.pass_filenames);
    assert!(matches!(h.stages, Stages::Selected(ref v) if v == &vec![Stage::PreCommit]));
    assert_eq!(h.full_id(), ".:fmt");
}

#[test]
fn builder_refuses_unsupported_options() {
    let mut def = hook("h", Language::System);
    def.options.additional_dependencies = Some(vec!["dep".to_string()]);
    let b = HookBuilder::new(origin(), def, 0);
    let none = LanguageSupport { install_env: false, dependencies: false, toolchain: false };
    match b.build(none) {
        Err(HookError::Hook { hook, message }) => {
            assert_eq!(hook, "h");
            assert_eq!(
                message,
                "Hook specified `additional_dependencies: dep` but the language `system` does not install an environment"
            );
        }
        other => panic!("unexpected {other:?}"),
    }
}

#[test]
fn project_hooks_in_order() {
    let cfg = config(vec![
        Repo::Remote(RemoteRepo::new(
            "https://r".to_string(),
            "v1".to_string(),
            vec![remote_hook("check"), RemoteHook { name: Some("renamed".to_string()), ..remote_hook("fix") }],
        )),
        Repo::Local(LocalRepo { repo: "local".to_string(), hooks: vec![hook("mine", Language::Python)], unused_keys: vec![] }),
        Repo::Meta(MetaRepo {
            repo: "meta".to_string(),
            hooks: vec![MetaHook(meta_hook_from_id("identity").unwrap())],
            unused_keys: vec![],
        }),
        Repo::Builtin(BuiltinRepo { repo: "builtin".to_string(), hooks: vec![BuiltinHook(hook("b", Language::System))], unused_keys: vec![] }),
    ]);
    let repos = vec![
        HookRepo::remote(
            "https://r".to_string(),
            "v1".to_string(),
            "/cache/r".to_string(),
            vec![hook("fix", Language::Python), hook("check", Language::Python)],
        ),
        HookRepo::local(vec![hook("mine", Language::Python)]),
        HookRepo::meta(vec![]),
        HookRepo::builtin(vec![]),
    ];
    let builders = project_hook_builders(&cfg, &repos, "sub", &vec![FULL; 5]).unwrap();
    assert_eq!(builders.len(), 5);
    let hooks = build_hooks(builders, &vec![FULL; 5]).unwrap();
    let ids: Vec<&str> = hooks.iter().map(|h| h.id.as_str()).collect();
    assert_eq!(ids, vec!["check", "fix", "mine", "identity", "b"]);
    assert_eq!(hooks[1].name, "renamed");
    assert_eq!(hooks[0].origin.repo_label, "https://r@v1");
    assert_eq!(hooks[0].origin.repo_path.as_deref(), Some("/cache/r"));
    assert_eq!(hooks[2].origin.repo_label, "local");
    assert_eq!(hooks[4].idx, 4);
}

#[test]
fn remote_hook_starts_from_first_definition() {
    let cfg = config(vec![Repo::Remote(RemoteRepo::new("u".to_string(), "v".to_string(), vec![remote_hook("fix")]))]);
    let repos = vec![HookRepo::remote(
        "u".to_string(),
        "v".to_string(),
        "/p".to_string(),
        vec![hook("fix", Language::Python), hook("fix", Language::System)],
    )];
    let builders = project_hook_builders(&cfg, &repos, "", &vec![FULL]).unwrap();
    let hooks = build_hooks(builders, &vec![FULL]).unwrap();
    assert_eq!(hooks.len(), 1);
    assert_eq!(hooks[0].language, Language::Python);
}

#[test]
fn unknown_remote_hook() {
    let cfg = config(vec![Repo::Remote(RemoteRepo::new("u".to_string(), "v".to_string(), vec![remote_hook("nope")]))]);
    let repos = vec![HookRepo::remote("u".to_string(), "v".to_string(), "/p".to_string(), vec![hook("yes", Language::System)])];
    match project_hook_builders(&cfg, &repos, "", &vec![FULL]) {
        Err(e @ WorkspaceError::HookNotFound { .. }) => {
            assert_eq!(e.message("hint:"), "Hook `nope` not present in repo `u@v`")
        }
        other => panic!("unexpected {:?}", other.map(|b| b.len())),
    }
}

#[test]
fn meta_and_builtin_hooks() {
    assert!(meta_hook_from_id("check-hooks-apply").is_some());
    assert!(meta_hook_from_id("hello").is_none());
    let base = meta_hook_from_id("identity");
    let mut cfg = remote_hook("identity");
    cfg.entry = Some("x".to_string());
    let err = fixed_hook_from_config(base, &cfg).unwrap_err();
    assert!(matches!(err, FixedHookError::EntryNotAllowed));
    assert_eq!(err.message(FixedHookKind::Meta), "entry is not allowed for meta hooks");
    let err = fixed_hook_from_config(None, &remote_hook("hello")).unwrap_err();
    assert_eq!(err.message(FixedHookKind::Meta), "unknown meta hook id `hello`");
    let renamed = fixed_hook_from_config(
        meta_hook_from_id("identity"),
        &RemoteHook { name: Some("Me".to_string()), ..remote_hook("identity") },
    )
    .unwrap();
    assert_eq!(renamed.name, "Me");
    assert_eq!(renamed.language, Language::System);
}

fn with_deps(id: &str) -> ManifestHook {
    let mut h = hook(id, Language::System);
    h.options.additional_dependencies = Some(vec!["dep".to_string()]);
    h
}

#[test]
fn earlier_check_failure_is_reported_before_later_unknown_hook() {
    let cfg = config(vec![
        Repo::Local(LocalRepo { repo: "local".to_string(), hooks: vec![with_deps("first")], unused_keys: vec![] }),
        Repo::Remote(RemoteRepo::new("u".to_string(), "v".to_string(), vec![remote_hook("nope")])),
    ]);
    let repos = vec![
        HookRepo::local(vec![with_deps("first")]),
        HookRepo::remote("u".to_string(), "v".to_string(), "/p".to_string(), vec![]),
    ];
    let none = LanguageSupport { install_env: false, dependencies: false, toolchain: false };
    match project_hook_builders(&cfg, &repos, "", &vec![none, FULL]) {
        Err(WorkspaceError::Hook(HookError::Hook { hook, message })) => {
            assert_eq!(hook, "first");
            assert_eq!(
                message,
                "Hook specified `additional_dependencies: dep` but the language `system` does not install an environment"
            );
        }
        other => panic!("unexpected {:?}", other.map(|b| b.len())),
    }
}

#[test]
fn first_unknown_remote_hook_is_reported() {
    let cfg = config(vec![Repo::Remote(RemoteRepo::new(
        "u".to_string(),
        "v".to_string(),
        vec![remote_hook("yes"), remote_hook("a"), remote_hook("b")],
    ))]);
    let repos = vec![HookRepo::remote("u".to_string(), "v".to_string(), "/p".to_string(), vec![hook("yes", Language::System)])];
    match project_hook_builders(&cfg, &repos, "", &vec![FULL; 3]) {
        Err(WorkspaceError::HookNotFound { hook, repo }) => {
            assert_eq!(hook, "a");
            assert_eq!(repo, "u@v");
        }
        other => panic!("unexpected {:?}", other.map(|b| b.len())),
    }
}

#[test]
fn built_hooks_keep_their_origin() {
    let cfg = config(vec![Repo::Remote(RemoteRepo::new("u".to_string(), "v".to_string(), vec![remote_hook("yes")]))]);
    let repos = vec![HookRepo::remote("u".to_string(), "v".to_string(), "/p".to_string(), vec![hook("yes", Language::System)])];
    let builders = project_hook_builders(&cfg, &repos, "sub", &vec![FULL]).unwrap();
    let hooks = build_hooks(builders, &vec![FULL]).unwrap();
    assert_eq!(hooks[0].origin.repo_label, "u@v");
    assert_eq!(hooks[0].origin.repo_path.as_deref(), Some("/p"));
    assert!(hooks[0].origin.remote);
    assert_eq!(hooks[0].origin.project_path, "sub");
    assert_eq!(hooks[0].env_key_dependencies(), vec!["u@v".to_string()]);
    assert_eq!(hooks[0].install_dependencies(), vec!["/p".to_string()]);
}

#[test]
fn build_hooks_reports_first_failure() {
    let none = LanguageSupport { install_env: false, dependencies: false, toolchain: false };
    let builders = vec![
        HookBuilder::new(origin(), hook("ok", Language::System), 0),
        HookBuilder::new(origin(), with_deps("bad1"), 1),
        HookBuilder::new(origin(), with_deps("bad2"), 2),
    ];
    match build_hooks(builders, &vec![none, none, none]) {
        Err(HookError::Hook { hook, .. }) => assert_eq!(hook, "bad1"),
        other => panic!("unexpected {:?}", other.map(|h| h.len())),
    }
}

#[test]
fn remotes_are_cloned_once_in_first_seen_order() {
    let a = config(vec![
        Repo::Remote(RemoteRepo::new("u1".to_string(), "v1".to_string(), vec![remote_hook("x")])),
        Repo::Local(LocalRepo { repo: "local".to_string(), hooks: vec![], unused_keys: vec![] }),
        Repo::Remote(RemoteRepo::new("u2".to_string(), "v2".to_string(), vec![])),
    ]);
    let b = config(vec![
        Repo::Remote(RemoteRepo::new("u2".to_string(), "v2".to_string(), vec![])),
        Repo::Remote(RemoteRepo::new("u1".to_string(), "v9".to_string(), vec![])),
    ]);
    let r = prek::project::remotes_to_clone(&vec![a, b]);
    assert_eq!(
        r,
        vec![
            ("u1".to_string(), "v1".to_string()),
            ("u2".to_string(), "v2".to_string()),
            ("u1".to_string(), "v9".to_string()),
        ]
    );
}

#[test]
fn project_repos_maps_entries_to_their_repositories() {
    let cfg = config(vec![
        Repo::Remote(RemoteRepo::new("u".to_string(), "v".to_string(), vec![remote_hook("yes")])),
        Repo::Local(LocalRepo { repo: "local".to_string(), hooks: vec![hook("mine", Language::System)], unused_keys: vec![] }),
    ]);
    let cloned = vec![(
        ("u".to_string(), "v".to_string()),
        HookRepo::remote("u".to_string(), "v".to_string(), "/p".to_string(), vec![hook("yes", Language::System)]),
    )];
    let repos = prek::project::project_repos(&cfg, &cloned).unwrap();
    assert_eq!(repos.len(), 2);
    assert_eq!(repos[0].display(), "u@v");
    assert_eq!(repos[0].path(), Some("/p"));
    assert_eq!(repos[1].display(), "local");
    let builders = project_hook_builders(&cfg, &repos, "", &vec![FULL; 2]).unwrap();
    assert_eq!(builders.len(), 2);

    let missing = config(vec![Repo::Remote(RemoteRepo::new("w".to_string(), "v".to_string(), vec![]))]);
    assert!(prek::project::project_repos(&missing, &cloned).is_none());
}
