use prek::config::{Config, LocalRepo, ManifestHook, Language, RemoteRepo, Repo};
use prek::loading::{
    collect_unused_paths, looks_like_sha, mutable_rev_repos, mutable_rev_warning,
    unused_keys_warning, ConfigFormat, RepoKind,
};
use prek::options::HookOptions;
use prek::patterns::{check_option_patterns, check_pattern, config_file_pattern};

fn s(v: &[&str]) -> Vec<String> {
    v.iter().map(|x| x.to_string()).collect()
}

fn config(repos: Vec<Repo>, unused: &[&str]) -> Config {
    Config {
        repos,
        default_install_hook_types: None,
        default_language_version: None,
        default_stages: None,
        files: None,
        exclude: None,
        fail_fast: None,
        minimum_prek_version: None,
        orphan: None,
        unused_keys: s(unused),
    }
}

#[test]
fn unused_key_paths() {
    let mut options = HookOptions::default();
    options.unused_keys = s(&["typo"]);
    let hook = ManifestHook {
        id: "h".to_string(),
        name: "h".to_string(),
        entry: "e".to_string(),
        language: Language::System,
        options,
    };
    let c = config(
        vec![
            Repo::Remote(RemoteRepo::new("u".to_string(), "v1.0".to_string(), vec![])),
            Repo::Local(LocalRepo { repo: "local".to_string(), hooks: vec![hook], unused_keys: s(&["extra"]) }),
        ],
        &["ci", "foo", "minimum_pre_commit_version"],
    );
    assert_eq!(collect_unused_paths(&c), s(&["foo", "repos[1].extra", "repos[1].hooks[0].typo"]));
}

#[test]
fn unused_key_warnings() {
    assert_eq!(unused_keys_warning("c.yaml", &vec![]), None);
    assert_eq!(
        unused_keys_warning("c.yaml", &s(&["a", "b"])).unwrap(),
        "Ignored unexpected keys in `c.yaml`: `a`, `b`"
    );
    assert_eq!(
        unused_keys_warning("c.yaml", &s(&["a", "b", "c", "d"])).unwrap(),
        "Ignored unexpected keys in `c.yaml`:\n  - `a`\n  - `b`\n  - `c`\n  - `d`"
    );
}

#[test]
fn sha_like_revisions() {
    assert!(looks_like_sha("abc123"));
    assert!(looks_like_sha("ABCDEF0123"));
    assert!(!looks_like_sha(""));
    assert!(!looks_like_sha("v1.0.0"));
}

#[test]
fn mutable_revisions() {
    let c = config(
        vec![
            Repo::Remote(RemoteRepo::new("https://a".to_string(), "main".to_string(), vec![])),
            Repo::Remote(RemoteRepo::new("https://b".to_string(), "v1.0.0".to_string(), vec![])),
            Repo::Remote(RemoteRepo::new("https://c".to_string(), "abc123".to_string(), vec![])),
        ],
        &[],
    );
    assert_eq!(mutable_rev_repos(&c), vec![("https://a".to_string(), "main".to_string())]);
    assert_eq!(
        mutable_rev_warning(&c).unwrap(),
        "The following repos have mutable `rev` fields (moving tag / branch):\nhttps://a: main\nMutable references are never updated after first install and are not supported.\nSee https://pre-commit.com/#using-the-latest-version-for-a-repository for more details.\nHint: `prek autoupdate` often fixes this\",\n"
    );
    assert_eq!(mutable_rev_warning(&config(vec![], &[])), None);
}

#[test]
fn config_formats() {
    assert_eq!(ConfigFormat::for_extension(Some("toml")), ConfigFormat::Toml);
    assert_eq!(ConfigFormat::for_extension(Some("TOML")), ConfigFormat::Toml);
    assert_eq!(ConfigFormat::for_extension(Some("yaml")), ConfigFormat::Yaml);
    assert_eq!(ConfigFormat::for_extension(None), ConfigFormat::Yaml);
}

#[test]
fn repo_kinds() {
    assert!(matches!(RepoKind::from_location("local"), RepoKind::Local));
    assert!(matches!(RepoKind::from_location("meta"), RepoKind::Meta));
    assert!(matches!(RepoKind::from_location("builtin"), RepoKind::Builtin));
    assert!(matches!(RepoKind::from_location("https://x"), RepoKind::Remote));
    assert_eq!(RepoKind::Local.error_prefix(), "Invalid local repo: ");
}

#[test]
fn patterns() {
    assert_eq!(config_file_pattern(), "^\\.pre-commit-config\\.yaml|\\.pre-commit-config\\.yml|prek\\.toml$");
    assert!(check_pattern("^src/.*\\.py$").is_ok());
    assert!(check_pattern("(unclosed").is_err());
    let mut o = HookOptions::default();
    o.files = Some("ok".to_string());
    o.exclude = Some("[".to_string());
    assert!(check_option_patterns(&o).is_err());
    o.exclude = Some("fine".to_string());
    assert!(check_option_patterns(&o).is_ok());
}
