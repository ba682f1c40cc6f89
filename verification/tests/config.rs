use prek::cli::{ColorChoice, ExitStatus, RunArgs, SizeArgs};
use prek::config::{Config, HookType, Language, RemoteRepo, Repo, Stage, PREK_TOML, PRE_COMMIT_CONFIG_YAML};
use prek::loading::{validate_minimum_version, validate_tags, MinimumVersionError};
use prek::version::Version;
use prek::{decimal_digits, format_decimal};

#[test]
fn names_round_trip() {
    for l in [Language::Python, Language::Node, Language::System, Language::Golang, Language::Rust] {
        assert_eq!(Language::from_name(l.as_str()), Some(l));
    }
    for h in [HookType::PreCommit, HookType::PrePush, HookType::CommitMsg, HookType::PostCheckout] {
        assert_eq!(HookType::from_name(h.as_str()), Some(h));
    }
    for s in [Stage::Manual, Stage::PreCommit, Stage::PrePush, Stage::PostRewrite] {
        assert_eq!(Stage::from_name(s.as_str()), Some(s));
    }
    assert_eq!(Language::from_name("no-such-language"), None);
}

#[test]
fn hook_type_arguments() {
    assert_eq!(HookType::PreCommit.num_args(), 0..=0);
    assert_eq!(HookType::CommitMsg.num_args(), 1..=1);
    assert_eq!(HookType::PrePush.num_args(), 2..=2);
    assert_eq!(HookType::PrepareCommitMsg.num_args(), 1..=3);
    assert_eq!(HookType::PostCheckout.num_args(), 3..=3);
    assert_eq!(HookType::PreRebase.num_args(), 1..=2);
}

#[test]
fn stages_of_hook_types() {
    assert_eq!(Stage::from(HookType::PrePush), Stage::PrePush);
    assert_eq!(Stage::from(HookType::CommitMsg), Stage::CommitMsg);
    assert!(Stage::PreCommit.operate_on_files());
    assert!(Stage::Manual.operate_on_files());
    assert!(!Stage::PostCheckout.operate_on_files());
    assert!(Stage::CommitMsg.operate_on_files());
    assert_eq!(Stage::PreMergeCommit.as_str(), "pre-merge-commit");
}

#[test]
fn file_names() {
    assert_eq!(PREK_TOML, "prek.toml");
    assert_eq!(PRE_COMMIT_CONFIG_YAML, ".pre-commit-config.yaml");
}

#[test]
fn exit_codes() {
    assert_eq!(ExitStatus::Success.code(), 0);
    assert_eq!(ExitStatus::Failure.code(), 1);
    assert_eq!(ExitStatus::Error.code(), 2);
    assert_eq!(ExitStatus::Interrupted.code(), 130);
    assert_eq!(ExitStatus::External(7).code(), 7);
    assert_ne!(ColorChoice::Auto, ColorChoice::Never);
    let size = SizeArgs { human: true };
    assert!(size.human);
    let run = RunArgs::default();
    assert!(run.from_ref.is_none() && !run.all_files && run.extra.remote_name.is_none());
}

#[test]
fn decimal_text() {
    assert_eq!(format_decimal(0), "0");
    assert_eq!(format_decimal(1234567890), "1234567890");
    assert_eq!(decimal_digits(42), vec!['4', '2']);
    assert_eq!(format_decimal(u64::MAX), "18446744073709551615");
}

#[test]
fn test_minimum_prek_version() {
    let current = Version::parse("0.2.25").unwrap();
    // A missing or empty value means no requirement.
    assert!(matches!(validate_minimum_version("", &current), Ok(None)));
    // A later version than the running one is refused.
    match validate_minimum_version("10.0.0", &current) {
        Err(e @ MinimumVersionError::TooNew { .. }) => assert_eq!(
            e.message(),
            "Required minimum prek version `10.0.0` is greater than current version `0.2.25`. Please consider updating prek."
        ),
        other => panic!("unexpected {other:?}"),
    }
    assert_eq!(validate_minimum_version("0.1.0", &current).unwrap(), Some("0.1.0".to_string()));
    assert!(matches!(validate_minimum_version("abc", &current), Err(MinimumVersionError::Invalid(_))));
}

#[test]
fn test_validate_type_tags() {
    let known: Vec<String> = ["python", "file", "text", "binary", "symlink"].iter().map(|s| s.to_string()).collect();
    let tags = |v: &[&str]| Some(v.iter().map(|s| s.to_string()).collect::<Vec<_>>());
    assert!(validate_tags(&tags(&["python", "file"]), &known).is_ok(), "Should parse valid tags successfully");
    assert!(validate_tags(&tags(&[]), &known).is_ok(), "Should parse empty/missing tags successfully");
    assert!(validate_tags(&None, &known).is_ok(), "Should parse empty/missing tags successfully");
    let err = validate_tags(&tags(&["pythoon"]), &known).unwrap_err();
    assert!(err.contains("Type tag \"pythoon\" is not recognized"));
    let err = validate_tags(&tags(&["text", "invalidtag"]), &known).unwrap_err();
    assert!(err.contains("Type tag \"invalidtag\" is not recognized"));
    let err = validate_tags(&tags(&["not-a-real-tag"]), &known).unwrap_err();
    assert!(err.contains("Type tag \"not-a-real-tag\" is not recognized"));
}

#[test]
fn versions() {
    let v = Version::parse("1.2.3-rc.1+build").unwrap();
    assert_eq!(v.display(), "1.2.3-rc.1+build");
    assert!(Version::parse("1.10.0").unwrap().newer_than(&Version::parse("1.9.9").unwrap()));
    assert!(!Version::parse("1.0.0").unwrap().newer_than(&Version::parse("1.0.0").unwrap()));
    assert_eq!(Version::parse("1.0.0").unwrap().meets(">=1.0, <2"), Some(true));
    assert_eq!(Version::parse("1.0.0").unwrap().meets("not a requirement"), None);
    assert!(Version::parse("1.0").is_err());
}

#[test]
fn config_warnings_come_in_order() {
    let config = Config {
        repos: vec![Repo::Remote(RemoteRepo::new("https://r".to_string(), "main".to_string(), vec![]))],
        default_install_hook_types: None,
        default_language_version: None,
        default_stages: None,
        files: None,
        exclude: None,
        fail_fast: None,
        minimum_prek_version: None,
        orphan: None,
        unused_keys: vec!["extra".to_string()],
    };
    let w = prek::loading::config_warnings(&config, "cfg.yaml");
    assert_eq!(w.len(), 2);
    assert_eq!(w[0], "Ignored unexpected keys in `cfg.yaml`: `extra`");
    assert!(w[1].starts_with("The following repos have mutable `rev` fields (moving tag / branch):\nhttps://r: main\n"));
    let quiet = Config { repos: vec![], unused_keys: vec![], ..config };
    assert!(prek::loading::config_warnings(&quiet, "cfg.yaml").is_empty());
}
