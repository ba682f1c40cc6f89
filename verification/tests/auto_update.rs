use prek::auto_update::{
    best_candidate_tag, check_hooks_present, collect_remote_updates, eligible_tag, failure_report,
    frozen_revision, group_remote_repos, job_count, parse_tag_timestamps, pick_revision,
    remote_sources, repo_selected, resolved_revision, revision_tables, update_report,
};
use prek::config::{Config, LocalRepo, RemoteRepo, Repo};
use prek::rev_lines::{
    is_rev_line, rev_value, rewrite_rev_line, rewrite_rev_lines, write_new_config_text, Revision,
};

const DAY: u64 = 86400;

fn config_with(repos: Vec<Repo>) -> Config {
    Config {
        repos,
        default_install_hook_types: None,
        default_language_version: None,
        default_stages: None,
        files: None,
        exclude: None,
        fail_fast: None,
        minimum_prek_version: None,
        orphan: None,
        unused_keys: vec![],
    }
}

fn remote(url: &str, rev: &str) -> Repo {
    Repo::Remote(RemoteRepo::new(url.to_string(), rev.to_string(), vec![]))
}

fn local() -> Repo {
    Repo::Local(LocalRepo { repo: "local".to_string(), hooks: vec![], unused_keys: vec![] })
}

fn revision(rev: &str, frozen: Option<&str>) -> Revision {
    Revision { rev: rev.to_string(), frozen: frozen.map(|f| f.to_string()) }
}

#[test]
fn rev_line_recognised() {
    assert!(is_rev_line("    rev: v1.0.0\n"));
    assert!(is_rev_line("  rev: 'v1.0.0'  # comment\r\n"));
    assert!(!is_rev_line("rev: v1.0.0\n"));
    assert!(!is_rev_line("    rev: v1.0.0"));
    assert!(!is_rev_line("    rev:\n"));
    assert!(!is_rev_line("    rev: # nothing\n"));
    assert!(!is_rev_line("    repo: https://example.com\n"));
}

#[test]
fn rewrite_rev_line_keeps_spacing_and_comment() {
    assert_eq!(
        rewrite_rev_line("    rev:   v1.0.0   # pinned\n", "v2.0.0", None).unwrap(),
        "    rev:   v2.0.0   # pinned\n"
    );
    assert_eq!(rewrite_rev_line("  - repo: x\n", "v2", None), None);
}

#[test]
fn rewrite_rev_line_with_frozen_note() {
    assert_eq!(
        rewrite_rev_line("    rev: v1.0.0\n", "abc123", Some("v2.0.0")).unwrap(),
        "    rev: abc123  # frozen: v2.0.0\n"
    );
    // An old frozen note goes when the new revision is not frozen.
    assert_eq!(
        rewrite_rev_line("    rev: abc  # frozen: v1.0.0\n", "v2.0.0", None).unwrap(),
        "    rev: v2.0.0\n"
    );
}

#[test]
fn rewrite_rev_line_keeps_carriage_return_in_comment() {
    assert_eq!(
        rewrite_rev_line("    rev: v1\r\n", "v2", None).unwrap(),
        "    rev: v2\r\n"
    );
    assert_eq!(
        rewrite_rev_line("    rev: v1\r\n", "v2", Some("t")).unwrap(),
        "    rev: v2  # frozen: t\n"
    );
}

#[test]
fn rewrite_rev_lines_rewrites_only_updated_repos() {
    let content = "repos:\n  - repo: a\n    rev: v1\n  - repo: b\n    rev: v2\n";
    let values = vec![None, Some(("v3".to_string(), None))];
    assert_eq!(
        rewrite_rev_lines(content, "cfg.yaml", &values).unwrap(),
        "repos:\n  - repo: a\n    rev: v1\n  - repo: b\n    rev: v3\n"
    );
}

#[test]
fn rewrite_rev_lines_count_mismatch() {
    let content = "repos:\n  - repo: a\n    rev: v1\n";
    let values = vec![None, None];
    assert_eq!(
        rewrite_rev_lines(content, ".pre-commit-config.yaml", &values).unwrap_err(),
        "Found 1 `rev:` lines in `.pre-commit-config.yaml` but expected 2, file content may have changed"
    );
}

#[test]
fn rev_value_after_colon() {
    assert_eq!(rev_value("rev: v1.0.0\n").unwrap(), "v1.0.0");
    assert_eq!(rev_value("rev: '1.0'\n").unwrap(), "'1.0'");
    assert_eq!(rev_value("no colon"), None);
}

#[test]
fn write_new_config_uses_yaml_form() {
    let content = "repos:\n  - repo: a\n    rev: v1  # keep\n";
    // A revision that reads as a number is quoted by the YAML writer.
    let out = write_new_config_text(content, "c.yaml", &vec![Some(revision("1.0", None))]).unwrap();
    assert_eq!(out, "repos:\n  - repo: a\n    rev: '1.0'  # keep\n");
    let out = write_new_config_text(content, "c.yaml", &vec![Some(revision("v2.0.0", None))]).unwrap();
    assert_eq!(out, "repos:\n  - repo: a\n    rev: v2.0.0  # keep\n");
}

#[test]
fn write_new_config_without_updates_is_unchanged() {
    let content = "repos:\n  - repo: a\n    rev: v1\n  - repo: b\n    rev: v2\n";
    let out = write_new_config_text(content, "c.yaml", &vec![None, None]).unwrap();
    assert_eq!(out, content);
}

#[test]
fn write_new_config_count_mismatch() {
    let err = write_new_config_text("repos: []\n", "p/c.yaml", &vec![None]).unwrap_err();
    assert_eq!(
        err,
        "Found 0 `rev:` lines in `p/c.yaml` but expected 1, file content may have changed"
    );
}

#[test]
fn tag_timestamps_from_for_each_ref() {
    let out = "alias-v0.2.0 300\nv0.2.0 200\nbad line\nv0.1.0 100\nv0.0.1 x\n";
    let tags = parse_tag_timestamps(out);
    assert_eq!(
        tags,
        vec![
            ("alias-v0.2.0".to_string(), 300),
            ("v0.2.0".to_string(), 200),
            ("v0.1.0".to_string(), 100)
        ]
    );
}

#[test]
fn cooldown_picks_newest_eligible_tag() {
    let now = 100 * DAY;
    let tags = vec![
        ("v2.0.0".to_string(), now - DAY),
        ("v2.0.0-rc1".to_string(), now - 5 * DAY),
        ("totally-different".to_string(), now - 5 * DAY),
    ];
    assert_eq!(eligible_tag(&tags, now, 3), Some(1));
}

#[test]
fn cooldown_none_when_all_tags_too_new() {
    let now = 100 * DAY;
    let tags = vec![("v1.1.0".to_string(), now - DAY), ("v1.0.0".to_string(), now - 2 * DAY)];
    assert_eq!(eligible_tag(&tags, now, 5), None);
}

#[test]
fn cooldown_picks_oldest_eligible_bucket() {
    let now = 100 * DAY;
    let tags = vec![
        ("v1.2.0".to_string(), now - DAY),
        ("v1.1.0".to_string(), now - 4 * DAY),
        ("v1.0.0".to_string(), now - 10 * DAY),
    ];
    assert_eq!(eligible_tag(&tags, now, 5), Some(2));
    assert_eq!(eligible_tag(&tags, now, 0), Some(0));
    // A cooldown longer than the epoch leaves a cutoff of zero.
    assert_eq!(eligible_tag(&tags, 10, 1), None);
}

#[test]
fn candidate_prefers_version_like_tags() {
    assert_eq!(best_candidate_tag("moving-tag\nv1.0.0\n", "moving-tag"), Some("v1.0.0".to_string()));
    assert_eq!(best_candidate_tag("moving-tag\n", "moving-tag"), None);
}

#[test]
fn candidate_closest_to_current() {
    assert_eq!(
        best_candidate_tag("v1.2.0\nfoo-1.2.0\nv2.0.0\n", "v1.2.3"),
        Some("v1.2.0".to_string())
    );
    assert_eq!(pick_revision("v2.0.0-rc1", Some("v2.0.0-rc1\ntotally-different\n"), "v2.0.0"), "v2.0.0-rc1");
    assert_eq!(pick_revision("target", None, "x"), "target");
    assert_eq!(pick_revision("target", Some("no-dots\n"), "x"), "target");
}

#[test]
fn freezing_to_commit() {
    assert_eq!(frozen_revision("v1.0.0", "abc123\n"), Some("abc123".to_string()));
    assert_eq!(frozen_revision("abc123", " abc123 \n"), None);
}

#[test]
fn missing_hooks_after_update() {
    let configured = vec!["a".to_string(), "b".to_string(), "c".to_string()];
    let provided = vec!["a".to_string()];
    assert_eq!(
        check_hooks_present("v2", &configured, &provided).unwrap_err(),
        "Cannot update to rev `v2`, hooks are missing: b, c"
    );
    let provided = vec!["a".to_string(), "b".to_string()];
    assert_eq!(
        check_hooks_present("v2", &configured, &provided).unwrap_err(),
        "Cannot update to rev `v2`, hook is missing: c"
    );
    let provided = vec!["c".to_string(), "b".to_string(), "a".to_string()];
    assert!(check_hooks_present("v2", &configured, &provided).is_ok());
}

#[test]
fn jobs_are_bounded() {
    assert_eq!(job_count(0, 8, 0, 3), 3);
    assert_eq!(job_count(2, 8, 0, 3), 2);
    assert_eq!(job_count(0, 8, 5, 3), 5);
    assert_eq!(job_count(0, 8, 0, 0), 1);
    assert_eq!(job_count(4, 8, 1, 10), 1);
}

#[test]
fn filter_selects_repos() {
    assert!(repo_selected(&vec![], "https://a"));
    assert!(repo_selected(&vec!["https://a".to_string()], "https://a"));
    assert!(!repo_selected(&vec!["https://b".to_string()], "https://a"));
}

#[test]
fn remotes_grouped_across_projects() {
    let configs = vec![
        config_with(vec![remote("a", "v1"), local(), remote("b", "v1")]),
        config_with(vec![remote("b", "v1"), remote("a", "v2")]),
    ];
    let (projects, updates) = collect_remote_updates(&configs);
    assert_eq!(projects[0], vec![("a".to_string(), "v1".to_string()), ("b".to_string(), "v1".to_string())]);
    assert_eq!(
        updates.repos,
        vec![
            ("a".to_string(), "v1".to_string()),
            ("b".to_string(), "v1".to_string()),
            ("a".to_string(), "v2".to_string())
        ]
    );
    let groups: Vec<(usize, usize, usize, usize)> = updates
        .uses
        .iter()
        .map(|u| (u.group, u.project, u.remote_index, u.remote_size))
        .collect();
    assert_eq!(groups, vec![(0, 0, 0, 2), (1, 0, 1, 2), (1, 1, 0, 2), (2, 1, 1, 2)]);

    let outcomes = vec![Some(revision("v9", None)), None, Some(revision("sha", Some("v3")))];
    let tables = revision_tables(&projects, &updates, &outcomes);
    assert_eq!(tables.len(), 2);
    assert_eq!(tables[0][0].as_ref().unwrap().rev, "v9");
    assert!(tables[0][1].is_none());
    assert!(tables[1][0].is_none());
    assert_eq!(tables[1][1].as_ref().unwrap().frozen.as_deref(), Some("v3"));
}

#[test]
fn remote_sources_skip_other_repos() {
    let c = config_with(vec![local(), remote("x", "1")]);
    assert_eq!(remote_sources(&c), vec![("x".to_string(), "1".to_string())]);
    let empty = group_remote_repos(&vec![]);
    assert!(empty.repos.is_empty() && empty.uses.is_empty());
}

#[test]
fn update_reports() {
    assert_eq!(update_report("https://a", "v1", "v1"), "[https://a] already up to date");
    assert_eq!(update_report("https://a", "v1", "v2"), "[https://a] updating v1 -> v2");
    assert_eq!(failure_report("https://a", "boom"), "[https://a] update failed: boom");
}

#[test]
fn resolved_revisions() {
    let r = resolved_revision("v1", None, None);
    assert_eq!((r.rev.as_str(), r.frozen), ("v1", None));
    let r = resolved_revision("v1", Some("v2".to_string()), Some("abc".to_string()));
    assert_eq!((r.rev.as_str(), r.frozen.as_deref()), ("abc", Some("v2")));
    let r = resolved_revision("v1", Some("v2".to_string()), None);
    assert_eq!((r.rev.as_str(), r.frozen), ("v2", None));
}
