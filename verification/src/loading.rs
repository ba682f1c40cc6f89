//! What happens to a configuration while it is read: the report of keys prek
//! does not know, the warnings on mutable revisions, and the checks of
//! individual values.
use vstd::prelude::*;

use crate::config::{Config, Language, ManifestHook, RemoteHook, Repo};
use crate::options::HookOptions;
use crate::patterns::{config_file_pattern, config_file_pattern_spec};
use crate::version::{semver_gt, semver_parse, Version};
use crate::text::{
    chars_of, concat2, concat3, decimal, join, join_seq, opt_str_view, push_decimal, push_str, str_eq,
    string_of, strs_view, wrap,
};

verus! {

/// `prefix.key`, or `key` alone when there is no prefix.
pub open spec fn join_key(prefix: Seq<char>, key: Seq<char>) -> Seq<char> {
    if prefix.len() == 0 {
        key
    } else {
        prefix + "."@ + key
    }
}

/// Each key joined to `prefix`.
pub open spec fn prefixed_paths(prefix: Seq<char>, keys: Seq<Seq<char>>) -> Seq<Seq<char>> {
    keys.map_values(|k: Seq<char>| join_key(prefix, k))
}

/// `base + name + "[" + n + "]"`.
pub open spec fn indexed(base: Seq<char>, name: Seq<char>, n: nat) -> Seq<char> {
    base + name + "["@ + decimal(n) + "]"@
}

/// The path of the `i`-th repository entry.
pub open spec fn repo_prefix(i: nat) -> Seq<char> {
    indexed(Seq::empty(), "repos"@, i)
}

/// The path of the `j`-th hook of the `i`-th repository entry.
pub open spec fn hook_prefix(i: nat, j: nat) -> Seq<char> {
    indexed(repo_prefix(i), ".hooks"@, j)
}

/// Top-level keys that prek knowingly ignores.
pub open spec fn is_expected_unused(k: Seq<char>) -> bool {
    k == "minimum_pre_commit_version"@ || k == "ci"@
}

/// The top-level unknown keys worth reporting.
pub open spec fn reported_top_keys(s: Seq<Seq<char>>) -> Seq<Seq<char>>
    decreases s.len(),
{
    if s.len() == 0 {
        s
    } else {
        let r = reported_top_keys(s.drop_last());
        if is_expected_unused(s.last()) {
            r
        } else {
            r.push(s.last())
        }
    }
}

/// Paths of unknown keys of the first `m` hooks of repository entry `r` (the `i`-th).
pub open spec fn hooks_unused_paths(r: Repo, i: nat, m: nat) -> Seq<Seq<char>>
    decreases m,
{
    if m == 0 {
        Seq::empty()
    } else {
        hooks_unused_paths(r, i, (m - 1) as nat) + prefixed_paths(
            hook_prefix(i, (m - 1) as nat),
            strs_view(r.hook_options(m - 1).unused_keys@),
        )
    }
}

/// Paths of unknown keys of repository entry `r` (the `i`-th) and of its hooks.
pub open spec fn repo_unused_paths(r: Repo, i: nat) -> Seq<Seq<char>> {
    prefixed_paths(repo_prefix(i), strs_view(r.unused_keys())) + hooks_unused_paths(
        r,
        i,
        r.hook_count(),
    )
}

/// Paths of unknown keys of the first `n` repository entries.
pub open spec fn repos_unused_paths(repos: Seq<Repo>, n: nat) -> Seq<Seq<char>>
    decreases n,
{
    if n == 0 {
        Seq::empty()
    } else {
        repos_unused_paths(repos, (n - 1) as nat) + repo_unused_paths(repos[n - 1], (n - 1) as nat)
    }
}

/// Every unknown key of a configuration, as a dotted path.
pub open spec fn unused_paths(c: Config) -> Seq<Seq<char>> {
    reported_top_keys(strs_view(c.unused_keys@)) + repos_unused_paths(c.repos@, c.repos@.len())
}

/// Appends `key` joined to `prefix` for each key.
pub fn push_unused_paths(acc: &mut Vec<String>, prefix: &str, keys: &Vec<String>)
    ensures
        strs_view(final(acc)@) == strs_view(old(acc)@) + prefixed_paths(prefix@, strs_view(keys@)),
{
    let ghost start = strs_view(acc@);
    let mut i: usize = 0;
    while i < keys.len()
        invariant
            i <= keys@.len(),
            strs_view(acc@) == start + prefixed_paths(prefix@, strs_view(keys@.take(i as int))),
        decreases keys.len() - i,
    {
        let key = keys[i].as_str();
        let path = if prefix.is_empty() {
            key.to_owned()
        } else {
            let mut v: Vec<char> = chars_of(prefix);
            push_str(&mut v, ".");
            push_str(&mut v, key);
            string_of(v.as_slice())
        };
        let ghost before = acc@;
        acc.push(path);
        proof {
            assert(keys@.take(i + 1) =~= keys@.take(i as int).push(keys@[i as int]));
            assert(strs_view(keys@.take(i + 1)) =~= strs_view(keys@.take(i as int)).push(
                keys@[i as int]@,
            ));
            assert(strs_view(acc@) =~= strs_view(before).push(path@));
            assert(prefixed_paths(prefix@, strs_view(keys@.take(i + 1))) =~= prefixed_paths(
                prefix@,
                strs_view(keys@.take(i as int)),
            ).push(join_key(prefix@, keys@[i as int]@)));
        }
        i = i + 1;
    }
    proof {
        assert(keys@.take(keys@.len() as int) =~= keys@);
    }
}

/// `base + name + "[" + n + "]"`.
fn indexed_label(base: &str, name: &str, n: usize) -> (s: String)
    ensures
        s@ == indexed(base@, name@, n as nat),
{
    let mut v: Vec<char> = chars_of(base);
    push_str(&mut v, name);
    push_str(&mut v, "[");
    push_decimal(&mut v, n as u64);
    push_str(&mut v, "]");
    string_of(v.as_slice())
}

fn is_expected_unused_key(k: &str) -> (b: bool)
    ensures
        b == is_expected_unused(k@),
{
    str_eq(k, "minimum_pre_commit_version") || str_eq(k, "ci")
}

/// The paths of the keys in a configuration that prek does not know.
pub fn collect_unused_paths(config: &Config) -> (paths: Vec<String>)
    ensures
        strs_view(paths@) == unused_paths(*config),
{
    let mut paths: Vec<String> = Vec::new();
    let keys = &config.unused_keys;
    let mut i: usize = 0;
    while i < keys.len()
        invariant
            i <= keys@.len(),
            strs_view(paths@) == reported_top_keys(strs_view(keys@.take(i as int))),
        decreases keys.len() - i,
    {
        let ghost before = paths@;
        proof {
            assert(strs_view(keys@.take(i + 1)).drop_last() =~= strs_view(keys@.take(i as int)));
            assert(strs_view(keys@.take(i + 1)).last() == keys@[i as int]@);
        }
        if !is_expected_unused_key(keys[i].as_str()) {
            paths.push(keys[i].clone());
            proof {
                assert(strs_view(paths@) =~= strs_view(before).push(keys@[i as int]@));
            }
        }
        i = i + 1;
    }
    proof {
        assert(keys@.take(keys@.len() as int) =~= keys@);
    }
    let mut r: usize = 0;
    while r < config.repos.len()
        invariant
            r <= config.repos@.len(),
            strs_view(paths@) == reported_top_keys(strs_view(config.unused_keys@))
                + repos_unused_paths(config.repos@, r as nat),
        decreases config.repos.len() - r,
    {
        let ghost before = strs_view(paths@);
        let repo = &config.repos[r];
        let repo_label = indexed_label("", "repos", r);
        proof {
            assert(repo_label@ == repo_prefix(r as nat)) by {
                reveal_strlit("");
                assert(""@ =~= Seq::<char>::empty());
            }
        }
        let unused = match repo {
            Repo::Remote(x) => &x.unused_keys,
            Repo::Local(x) => &x.unused_keys,
            Repo::Meta(x) => &x.unused_keys,
            Repo::Builtin(x) => &x.unused_keys,
        };
        push_unused_paths(&mut paths, repo_label.as_str(), unused);
        let n = match repo {
            Repo::Remote(x) => x.hooks.len(),
            Repo::Local(x) => x.hooks.len(),
            Repo::Meta(x) => x.hooks.len(),
            Repo::Builtin(x) => x.hooks.len(),
        };
        let mut j: usize = 0;
        while j < n
            invariant
                j <= n,
                n == repo.hook_count(),
                repo_label@ == repo_prefix(r as nat),
                strs_view(paths@) == before + prefixed_paths(
                    repo_prefix(r as nat),
                    strs_view(repo.unused_keys()),
                ) + hooks_unused_paths(*repo, r as nat, j as nat),
            decreases n - j,
        {
            let hook_keys = match repo {
                Repo::Remote(x) => &x.hooks[j].options.unused_keys,
                Repo::Local(x) => &x.hooks[j].options.unused_keys,
                Repo::Meta(x) => &x.hooks[j].0.options.unused_keys,
                Repo::Builtin(x) => &x.hooks[j].0.options.unused_keys,
            };
            let hook_label = indexed_label(repo_label.as_str(), ".hooks", j);
            push_unused_paths(&mut paths, hook_label.as_str(), hook_keys);
            proof {
                assert(hook_label@ == hook_prefix(r as nat, j as nat));
                assert(hook_keys@ == repo.hook_options(j as int).unused_keys@);
                assert(strs_view(paths@) =~= before + prefixed_paths(
                    repo_prefix(r as nat),
                    strs_view(repo.unused_keys()),
                ) + hooks_unused_paths(*repo, r as nat, (j + 1) as nat));
            }
            j = j + 1;
        }
        proof {
            assert(strs_view(paths@) =~= reported_top_keys(strs_view(config.unused_keys@))
                + repos_unused_paths(config.repos@, (r + 1) as nat));
        }
        r = r + 1;
    }
    paths
}

} // verus!

verus! {

/// ``"`" + e + "`"``.
pub open spec fn backquoted(e: Seq<char>) -> Seq<char> {
    "`"@ + e + "`"@
}

/// ``"  - `" + e + "`"``.
pub open spec fn bulleted(e: Seq<char>) -> Seq<char> {
    "  - `"@ + e + "`"@
}

/// The warning about unknown keys in the configuration at `path`: the keys in
/// one line when there are fewer than four, one per line otherwise.
pub open spec fn unused_keys_message(path: Seq<char>, entries: Seq<Seq<char>>) -> Option<Seq<char>> {
    if entries.len() == 0 {
        None
    } else if entries.len() < 4 {
        Some(
            "Ignored unexpected keys in `"@ + path + "`: "@ + join_seq(
                entries.map_values(|e: Seq<char>| backquoted(e)),
                ", "@,
            ),
        )
    } else {
        Some(
            "Ignored unexpected keys in `"@ + path + "`:\n"@ + join_seq(
                entries.map_values(|e: Seq<char>| bulleted(e)),
                "\n"@,
            ),
        )
    }
}

fn decorate_all(entries: &Vec<String>, prefix: &str, suffix: &str) -> (r: Vec<String>)
    ensures
        strs_view(r@) == strs_view(entries@).map_values(|e: Seq<char>| prefix@ + e + suffix@),
{
    let mut r: Vec<String> = Vec::new();
    let mut i: usize = 0;
    while i < entries.len()
        invariant
            i <= entries@.len(),
            strs_view(r@) == strs_view(entries@.take(i as int)).map_values(
                |e: Seq<char>| prefix@ + e + suffix@,
            ),
        decreases entries.len() - i,
    {
        let ghost before = r@;
        let item = wrap(prefix, entries[i].as_str(), suffix);
        r.push(item);
        proof {
            assert(strs_view(r@) =~= strs_view(before).push(item@));
            assert(strs_view(entries@.take(i + 1)) =~= strs_view(entries@.take(i as int)).push(
                entries@[i as int]@,
            ));
            assert(strs_view(entries@.take(i + 1)).map_values(|e: Seq<char>| prefix@ + e + suffix@)
                =~= strs_view(entries@.take(i as int)).map_values(
                |e: Seq<char>| prefix@ + e + suffix@,
            ).push(prefix@ + entries@[i as int]@ + suffix@));
        }
        i = i + 1;
    }
    proof {
        assert(entries@.take(entries@.len() as int) =~= entries@);
    }
    r
}

/// The warning about the unknown keys `entries` of the configuration at `path`.
pub fn unused_keys_warning(path: &str, entries: &Vec<String>) -> (r: Option<String>)
    ensures
        opt_str_view(r) == unused_keys_message(path@, strs_view(entries@)),
{
    if entries.len() == 0 {
        return None;
    }
    if entries.len() < 4 {
        let items = decorate_all(entries, "`", "`");
        let inline = join(&items, ", ");
        proof {
            assert(strs_view(items@) =~= strs_view(entries@).map_values(
                |e: Seq<char>| backquoted(e),
            ));
        }
        Some(concat3("Ignored unexpected keys in `", path, concat2("`: ", inline.as_str()).as_str()))
    } else {
        let items = decorate_all(entries, "  - `", "`");
        let list = join(&items, "\n");
        proof {
            assert(strs_view(items@) =~= strs_view(entries@).map_values(
                |e: Seq<char>| bulleted(e),
            ));
        }
        Some(
            concat3("Ignored unexpected keys in `", path, concat2("`:\n", list.as_str()).as_str()),
        )
    }
}

/// An ASCII hexadecimal digit.
pub open spec fn is_hex_digit(c: char) -> bool {
    ('0' <= c && c <= '9') || ('a' <= c && c <= 'f') || ('A' <= c && c <= 'F')
}

/// A non-empty run of hexadecimal digits, as a commit SHA is written.
pub open spec fn is_sha_like(s: Seq<char>) -> bool {
    s.len() > 0 && forall|i: int| 0 <= i < s.len() ==> is_hex_digit(#[trigger] s[i])
}

/// Check if a string looks like a git SHA.
pub fn looks_like_sha(s: &str) -> (b: bool)
    ensures
        b == is_sha_like(s@),
{
    let v = chars_of(s);
    if v.len() == 0 {
        return false;
    }
    let mut i: usize = 0;
    while i < v.len()
        invariant
            v@ == s@,
            i <= v@.len(),
            forall|k: int| 0 <= k < i ==> is_hex_digit(#[trigger] v@[k]),
        decreases v.len() - i,
    {
        let c = v[i];
        if !(('0' <= c && c <= '9') || ('a' <= c && c <= 'f') || ('A' <= c && c <= 'F')) {
            return false;
        }
        i = i + 1;
    }
    true
}

/// A revision that names a moving reference: neither a version (it has no `.`)
/// nor a commit SHA.
pub open spec fn is_mutable_rev(rev: Seq<char>) -> bool {
    !rev.contains('.') && !is_sha_like(rev)
}

fn contains_char(s: &str, c: char) -> (b: bool)
    ensures
        b == s@.contains(c),
{
    let v = chars_of(s);
    let mut i: usize = 0;
    while i < v.len()
        invariant
            v@ == s@,
            i <= v@.len(),
            forall|k: int| 0 <= k < i ==> v@[k] != c,
        decreases v.len() - i,
    {
        if v[i] == c {
            return true;
        }
        i = i + 1;
    }
    false
}

/// The remote repository entries among `repos`, as `(url, rev)`.
pub open spec fn remote_sources(repos: Seq<Repo>) -> Seq<(Seq<char>, Seq<char>)>
    decreases repos.len(),
{
    if repos.len() == 0 {
        Seq::empty()
    } else {
        let r = remote_sources(repos.drop_last());
        match repos.last() {
            Repo::Remote(x) => r.push((x.repo@, x.rev@)),
            _ => r,
        }
    }
}

/// The remote repository entries whose `rev` is a moving reference, as `(url, rev)`.
pub open spec fn mutable_rev_sources(repos: Seq<Repo>) -> Seq<(Seq<char>, Seq<char>)>
    decreases repos.len(),
{
    if repos.len() == 0 {
        Seq::empty()
    } else {
        let r = mutable_rev_sources(repos.drop_last());
        match repos.last() {
            Repo::Remote(x) => if is_mutable_rev(x.rev@) {
                r.push((x.repo@, x.rev@))
            } else {
                r
            },
            _ => r,
        }
    }
}

/// The pairs as views.
pub open spec fn pairs_view(s: Seq<(String, String)>) -> Seq<(Seq<char>, Seq<char>)> {
    s.map_values(|p: (String, String)| (p.0@, p.1@))
}

/// The remote repositories of `config` pinned to a moving reference, as `(url, rev)`.
pub fn mutable_rev_repos(config: &Config) -> (r: Vec<(String, String)>)
    ensures
        pairs_view(r@) == mutable_rev_sources(config.repos@),
{
    let mut r: Vec<(String, String)> = Vec::new();
    let mut i: usize = 0;
    while i < config.repos.len()
        invariant
            i <= config.repos@.len(),
            pairs_view(r@) == mutable_rev_sources(config.repos@.take(i as int)),
        decreases config.repos.len() - i,
    {
        let ghost before = r@;
        proof {
            assert(config.repos@.take(i + 1).drop_last() =~= config.repos@.take(i as int));
            assert(config.repos@.take(i + 1).last() == config.repos@[i as int]);
        }
        if let Repo::Remote(x) = &config.repos[i] {
            if !contains_char(x.rev.as_str(), '.') && !looks_like_sha(x.rev.as_str()) {
                r.push((x.repo.clone(), x.rev.clone()));
                proof {
                    assert(pairs_view(r@) =~= pairs_view(before).push((x.repo@, x.rev@)));
                }
            }
        }
        i = i + 1;
    }
    proof {
        assert(config.repos@.take(config.repos@.len() as int) =~= config.repos@);
    }
    r
}

/// The warning listing remote repositories pinned to a moving reference.
pub open spec fn mutable_rev_message(sources: Seq<(Seq<char>, Seq<char>)>) -> Seq<char> {
    "The following repos have mutable `rev` fields (moving tag / branch):\n"@ + join_seq(
        sources.map_values(|p: (Seq<char>, Seq<char>)| p.0 + ": "@ + p.1),
        "\n"@,
    )
        + "\nMutable references are never updated after first install and are not supported.\nSee https://pre-commit.com/#using-the-latest-version-for-a-repository for more details.\nHint: `prek autoupdate` often fixes this\",\n"@
}

/// The warning about remote repositories pinned to a moving reference, if there are any.
pub fn mutable_rev_warning(config: &Config) -> (r: Option<String>)
    ensures
        match r {
            Some(m) => mutable_rev_sources(config.repos@).len() > 0 && m@ == mutable_rev_message(
                mutable_rev_sources(config.repos@),
            ),
            None => mutable_rev_sources(config.repos@).len() == 0,
        },
{
    let repos = mutable_rev_repos(config);
    if repos.len() == 0 {
        return None;
    }
    let mut lines: Vec<String> = Vec::new();
    let mut i: usize = 0;
    while i < repos.len()
        invariant
            i <= repos@.len(),
            strs_view(lines@) == pairs_view(repos@.take(i as int)).map_values(
                |p: (Seq<char>, Seq<char>)| p.0 + ": "@ + p.1,
            ),
        decreases repos.len() - i,
    {
        let ghost before = lines@;
        let line = wrap(repos[i].0.as_str(), ": ", repos[i].1.as_str());
        lines.push(line);
        proof {
            assert(strs_view(lines@) =~= strs_view(before).push(line@));
            assert(pairs_view(repos@.take(i + 1)) =~= pairs_view(repos@.take(i as int)).push(
                (repos@[i as int].0@, repos@[i as int].1@),
            ));
            assert(pairs_view(repos@.take(i + 1)).map_values(
                |p: (Seq<char>, Seq<char>)| p.0 + ": "@ + p.1,
            ) =~= pairs_view(repos@.take(i as int)).map_values(
                |p: (Seq<char>, Seq<char>)| p.0 + ": "@ + p.1,
            ).push(repos@[i as int].0@ + ": "@ + repos@[i as int].1@));
        }
        i = i + 1;
    }
    proof {
        assert(repos@.take(repos@.len() as int) =~= repos@);
    }
    let msg = join(&lines, "\n");
    Some(
        concat3(
            "The following repos have mutable `rev` fields (moving tag / branch):\n",
            msg.as_str(),
            "\nMutable references are never updated after first install and are not supported.\nSee https://pre-commit.com/#using-the-latest-version-for-a-repository for more details.\nHint: `prek autoupdate` often fixes this\",\n",
        ),
    )
}

} // verus!

verus! {

/// Why a `minimum_prek_version` is refused.
#[derive(Debug)]
pub enum MinimumVersionError {
    /// The value is not a semantic version; the text of the parser's error.
    Invalid(String),
    /// The required version is later than the running one; both written canonically.
    TooNew { required: String, current: String },
}

impl MinimumVersionError {
    pub open spec fn message_of(&self) -> Seq<char> {
        match self {
            MinimumVersionError::Invalid(e) => e@,
            MinimumVersionError::TooNew { required, current } => "Required minimum prek version `"@
                + required@ + "` is greater than current version `"@ + current@
                + "`. Please consider updating prek."@,
        }
    }

    pub fn message(&self) -> (s: String)
        ensures
            s@ == self.message_of(),
    {
        match self {
            MinimumVersionError::Invalid(e) => e.clone(),
            MinimumVersionError::TooNew { required, current } => {
                let mut v: Vec<char> = Vec::new();
                push_str(&mut v, "Required minimum prek version `");
                push_str(&mut v, required.as_str());
                push_str(&mut v, "` is greater than current version `");
                push_str(&mut v, current.as_str());
                push_str(&mut v, "`. Please consider updating prek.");
                string_of(v.as_slice())
            },
        }
    }
}

/// Validates a `minimum_prek_version` value against the running version
/// `current`: an empty value means no requirement.
pub fn validate_minimum_version(s: &str, current: &Version) -> (r: Result<
    Option<String>,
    MinimumVersionError,
>)
    ensures
        s@.len() == 0 ==> r matches Ok(None),
        s@.len() > 0 ==> match semver_parse(s@) {
            Err(e) => r matches Err(MinimumVersionError::Invalid(m)) && m@ == e,
            Ok(parts) => if semver_gt(s@, current.text()) {
                r matches Err(MinimumVersionError::TooNew { required, current: cur }) && required@
                    == Version::canonical(parts) && cur@ == Version::canonical(current.parts())
            } else {
                r matches Ok(Some(v)) && v@ == s@
            },
        },
{
    if s.is_empty() {
        return Ok(None);
    }
    match Version::parse(s) {
        Err(e) => Err(MinimumVersionError::Invalid(e)),
        Ok(version) => {
            if version.newer_than(current) {
                Err(
                    MinimumVersionError::TooNew {
                        required: version.display(),
                        current: current.display(),
                    },
                )
            } else {
                Ok(Some(s.to_owned()))
            }
        },
    }
}

/// The message for a file type tag that prek does not know.
pub open spec fn unknown_tag_message(tag: Seq<char>) -> Seq<char> {
    "Type tag \""@ + tag + "\" is not recognized. Try upgrading prek"@
}

/// The index of the first of `tags` that is not among `known`, if any.
pub open spec fn first_unknown_tag(tags: Seq<Seq<char>>, known: Seq<Seq<char>>) -> Option<int> {
    if exists|i: int| 0 <= i < tags.len() && !known.contains(#[trigger] tags[i]) {
        Some(
            choose|i: int|
                0 <= i < tags.len() && !known.contains(tags[i]) && forall|j: int|
                    0 <= j < i ==> known.contains(#[trigger] tags[j]),
        )
    } else {
        None
    }
}

fn contains_string(items: &Vec<String>, s: &str) -> (b: bool)
    ensures
        b == strs_view(items@).contains(s@),
{
    let mut i: usize = 0;
    while i < items.len()
        invariant
            i <= items@.len(),
            forall|k: int| 0 <= k < i ==> items@[k]@ != s@,
        decreases items.len() - i,
    {
        if str_eq(items[i].as_str(), s) {
            proof {
                assert(strs_view(items@)[i as int] == s@);
            }
            return true;
        }
        i = i + 1;
    }
    proof {
        if strs_view(items@).contains(s@) {
            let k = choose|k: int| 0 <= k < strs_view(items@).len() && strs_view(items@)[k] == s@;
            assert(items@[k]@ == s@);
        }
    }
    false
}

proof fn lemma_first_unknown_tag(tags: Seq<Seq<char>>, known: Seq<Seq<char>>, i: int)
    requires
        0 <= i < tags.len(),
        !known.contains(tags[i]),
        forall|j: int| 0 <= j < i ==> known.contains(#[trigger] tags[j]),
    ensures
        first_unknown_tag(tags, known) == Some(i),
{
    assert(0 <= i < tags.len() && !known.contains(tags[i]));
    let c = choose|c: int|
        0 <= c < tags.len() && !known.contains(tags[c]) && forall|j: int|
            0 <= j < c ==> known.contains(#[trigger] tags[j]);
    if c < i {
        assert(known.contains(tags[c]));
    }
    if c > i {
        assert(known.contains(tags[i]));
    }
}

/// Checks that every tag of a `types`, `types_or` or `exclude_types` list is a
/// known file type tag; the error names the first unknown one.
pub fn validate_tags(tags: &Option<Vec<String>>, known: &Vec<String>) -> (r: Result<(), String>)
    ensures
        match tags {
            None => r is Ok,
            Some(t) => match first_unknown_tag(strs_view(t@), strs_view(known@)) {
                None => r is Ok,
                Some(i) => r matches Err(m) && m@ == unknown_tag_message(t@[i]@),
            },
        },
{
    if let Some(t) = tags {
        let mut i: usize = 0;
        while i < t.len()
            invariant
                *tags == Some(*t),
                i <= t@.len(),
                forall|j: int|
                    0 <= j < i ==> strs_view(known@).contains(#[trigger] strs_view(t@)[j]),
            decreases t.len() - i,
        {
            if !contains_string(known, t[i].as_str()) {
                proof {
                    lemma_first_unknown_tag(strs_view(t@), strs_view(known@), i as int);
                }
                return Err(concat3("Type tag \"", t[i].as_str(), "\" is not recognized. Try upgrading prek"));
            }
            proof {
                assert(strs_view(t@)[i as int] == t@[i as int]@);
            }
            i = i + 1;
        }
        proof {
            let tv = strs_view(t@);
            let kv = strs_view(known@);
            assert forall|j: int| 0 <= j < tv.len() implies kv.contains(#[trigger] tv[j]) by {
                assert(tv[j] == t@[j]@);
            }
        }
    }
    Ok(())
}

/// The syntax a configuration file is written in.
#[derive(Debug, Copy, Clone, PartialEq, Eq, Structural)]
pub enum ConfigFormat {
    Toml,
    Yaml,
}

/// The code of the ASCII lower-case form of a character.
pub open spec fn ascii_lower(c: char) -> u32 {
    if 'A' <= c && c <= 'Z' {
        ((c as u32) + 32) as u32
    } else {
        c as u32
    }
}

/// `a` and `b` are equal ignoring ASCII case.
pub open spec fn eq_ignore_ascii_case(a: Seq<char>, b: Seq<char>) -> bool {
    a.len() == b.len() && forall|i: int| 0 <= i < a.len() ==> ascii_lower(a[i]) == ascii_lower(b[i])
}

fn lower_char(c: char) -> (r: u32)
    ensures
        r == ascii_lower(c),
{
    if 'A' <= c && c <= 'Z' {
        (c as u32) + 32
    } else {
        c as u32
    }
}

impl ConfigFormat {
    /// A configuration whose file extension is `toml` (in any case) is TOML,
    /// every other one YAML.
    pub fn for_extension(ext: Option<&str>) -> (f: ConfigFormat)
        ensures
            f == (match ext {
                Some(e) => if eq_ignore_ascii_case(e@, "toml"@) {
                    ConfigFormat::Toml
                } else {
                    ConfigFormat::Yaml
                },
                None => ConfigFormat::Yaml,
            }),
    {
        match ext {
            None => ConfigFormat::Yaml,
            Some(e) => {
                let a = chars_of(e);
                let b = chars_of("toml");
                if a.len() != b.len() {
                    return ConfigFormat::Yaml;
                }
                let mut i: usize = 0;
                while i < a.len()
                    invariant
                        ext == Some(e),
                        a@ == e@,
                        b@ == "toml"@,
                        a.len() == b.len(),
                        i <= a.len(),
                        forall|k: int| 0 <= k < i ==> ascii_lower(a@[k]) == ascii_lower(b@[k]),
                    decreases a.len() - i,
                {
                    if lower_char(a[i]) != lower_char(b[i]) {
                        proof {
                            assert(ascii_lower(e@[i as int]) != ascii_lower("toml"@[i as int]));
                            assert(!eq_ignore_ascii_case(e@, "toml"@));
                        }
                        return ConfigFormat::Yaml;
                    }
                    i = i + 1;
                }
                ConfigFormat::Toml
            },
        }
    }
}

} // verus!

verus! {

/// The two kinds of hooks that prek defines itself.
#[derive(Debug, Copy, Clone, PartialEq, Eq, Structural)]
pub enum FixedHookKind {
    Meta,
    Builtin,
}

impl FixedHookKind {
    pub open spec fn word(self) -> Seq<char> {
        match self {
            FixedHookKind::Meta => "meta"@,
            FixedHookKind::Builtin => "builtin"@,
        }
    }

    pub fn as_str(self) -> (s: &'static str)
        ensures
            s@ == self.word(),
    {
        match self {
            FixedHookKind::Meta => "meta",
            FixedHookKind::Builtin => "builtin",
        }
    }
}

/// Why a meta or builtin hook entry of a configuration is refused.
#[derive(Debug)]
pub enum FixedHookError {
    /// No hook of that kind has this id.
    UnknownId(String),
    /// The entry names a language other than `system`.
    LanguageNotSystem,
    /// The entry sets `entry`.
    EntryNotAllowed,
}

impl FixedHookError {
    pub open spec fn message_of(&self, kind: FixedHookKind) -> Seq<char> {
        match self {
            FixedHookError::UnknownId(id) => "unknown "@ + kind.word() + " hook id `"@ + id@ + "`"@,
            FixedHookError::LanguageNotSystem => "language must be `system` for "@ + kind.word()
                + " hooks"@,
            FixedHookError::EntryNotAllowed => "entry is not allowed for "@ + kind.word()
                + " hooks"@,
        }
    }

    pub fn message(&self, kind: FixedHookKind) -> (s: String)
        ensures
            s@ == self.message_of(kind),
    {
        let mut v: Vec<char> = Vec::new();
        match self {
            FixedHookError::UnknownId(id) => {
                push_str(&mut v, "unknown ");
                push_str(&mut v, kind.as_str());
                push_str(&mut v, " hook id `");
                push_str(&mut v, id.as_str());
                push_str(&mut v, "`");
            },
            FixedHookError::LanguageNotSystem => {
                push_str(&mut v, "language must be `system` for ");
                push_str(&mut v, kind.as_str());
                push_str(&mut v, " hooks");
            },
            FixedHookError::EntryNotAllowed => {
                push_str(&mut v, "entry is not allowed for ");
                push_str(&mut v, kind.as_str());
                push_str(&mut v, " hooks");
            },
        }
        string_of(v.as_slice())
    }
}

/// The definition of a meta or builtin hook configured by `config`, given the
/// predefined hook `base` of that id (`None` when there is none): the entry may
/// rename the hook and override its options, but not change its language or entry.
pub fn fixed_hook_from_config(base: Option<ManifestHook>, config: &RemoteHook) -> (r: Result<
    ManifestHook,
    FixedHookError,
>)
    requires
        base matches Some(b) ==> b.wf(),
        config.wf(),
    ensures
        match base {
            None => r matches Err(FixedHookError::UnknownId(id)) && id@ == config.id@,
            Some(b) => if config.language matches Some(l) && l != Language::System {
                r matches Err(FixedHookError::LanguageNotSystem)
            } else if config.entry is Some {
                r matches Err(FixedHookError::EntryNotAllowed)
            } else {
                r matches Ok(h) && h.wf() && h.id@ == b.id@ && h.name@ == (match config.name {
                    Some(n) => n@,
                    None => b.name@,
                }) && h.entry@ == b.entry@ && h.language == b.language && HookOptions::overridden(
                    &b.options,
                    &config.options,
                    &h.options,
                )
            },
        },
{
    let mut hook = match base {
        None => {
            return Err(FixedHookError::UnknownId(config.id.clone()));
        },
        Some(b) => b,
    };
    if let Some(l) = config.language {
        if l != Language::System {
            return Err(FixedHookError::LanguageNotSystem);
        }
    }
    if config.entry.is_some() {
        return Err(FixedHookError::EntryNotAllowed);
    }
    if let Some(name) = &config.name {
        hook.name = name.clone();
    }
    hook.options.update(&config.options);
    Ok(hook)
}

/// The hook `check-hooks-apply`, `check-useless-excludes` or `identity`.
pub fn meta_hook_from_id(id: &str) -> (r: Option<ManifestHook>)
    ensures
        match r {
            Some(h) => h.wf() && h.id@ == id@ && h.entry@.len() == 0 && h.language
                == Language::System && h.options.unused_keys@.len() == 0 && (id@
                == "check-hooks-apply"@ || id@ == "check-useless-excludes"@ || id@ == "identity"@),
            None => !(id@ == "check-hooks-apply"@ || id@ == "check-useless-excludes"@ || id@
                == "identity"@),
        },
        id@ == "check-hooks-apply"@ ==> (r matches Some(h) && h.name@ == "Check hooks apply"@
            && opt_str_view(h.options.files) == Some(config_file_pattern_spec()) && (HookOptions { files: None, ..h.options }).all_unset()),
        id@ == "check-useless-excludes"@ ==> (r matches Some(h) && h.name@
            == "Check useless excludes"@ && opt_str_view(h.options.files) == Some(
            config_file_pattern_spec(),
        ) && (HookOptions { files: None, ..h.options }).all_unset()),
        id@ == "identity"@ ==> (r matches Some(h) && h.name@ == "identity"@ && h.options.verbose
            == Some(true) && (HookOptions { verbose: None, ..h.options }).all_unset()),
{
    proof {
        reveal_strlit("check-hooks-apply");
        reveal_strlit("check-useless-excludes");
        reveal_strlit("identity");
        assert("check-useless-excludes"@.len() != "check-hooks-apply"@.len());
        assert("identity"@.len() != "check-hooks-apply"@.len());
        assert("identity"@.len() != "check-useless-excludes"@.len());
    }
    let (name, files, verbose) = if str_eq(id, "check-hooks-apply") {
        ("Check hooks apply", Some(config_file_pattern()), None)
    } else if str_eq(id, "check-useless-excludes") {
        ("Check useless excludes", Some(config_file_pattern()), None)
    } else if str_eq(id, "identity") {
        ("identity", None, Some(true))
    } else {
        return None;
    };
    let mut options = HookOptions::default();
    options.files = files;
    options.verbose = verbose;
    Some(
        ManifestHook {
            id: id.to_owned(),
            name: name.to_owned(),
            entry: String::new(),
            language: Language::System,
            options,
        },
    )
}

/// Where a repository entry's hooks come from, by the value of its `repo` key.
#[derive(Debug, Copy, Clone, PartialEq, Eq, Structural)]
pub enum RepoKind {
    Remote,
    Local,
    Meta,
    Builtin,
}

impl RepoKind {
    /// `local`, `meta` and `builtin` name the repositories prek knows; any
    /// other location is a remote repository.
    pub open spec fn of(location: Seq<char>) -> RepoKind {
        if location == "local"@ {
            RepoKind::Local
        } else if location == "meta"@ {
            RepoKind::Meta
        } else if location == "builtin"@ {
            RepoKind::Builtin
        } else {
            RepoKind::Remote
        }
    }

    pub fn from_location(location: &str) -> (k: RepoKind)
        ensures
            k == RepoKind::of(location@),
    {
        if str_eq(location, "local") {
            RepoKind::Local
        } else if str_eq(location, "meta") {
            RepoKind::Meta
        } else if str_eq(location, "builtin") {
            RepoKind::Builtin
        } else {
            RepoKind::Remote
        }
    }

    /// The beginning of the message when an entry of this kind does not parse.
    pub fn error_prefix(self) -> (s: &'static str)
        ensures
            s@ == (match self {
                RepoKind::Remote => "Invalid remote repo: "@,
                RepoKind::Local => "Invalid local repo: "@,
                RepoKind::Meta => "Invalid meta repo: "@,
                RepoKind::Builtin => "Invalid builtin repo: "@,
            }),
    {
        match self {
            RepoKind::Remote => "Invalid remote repo: ",
            RepoKind::Local => "Invalid local repo: ",
            RepoKind::Meta => "Invalid meta repo: ",
            RepoKind::Builtin => "Invalid builtin repo: ",
        }
    }
}

/// The warnings given when the configuration `c` is read from `path`, in
/// order: its unknown keys, then its remote repositories pinned to a moving
/// reference; none where there is nothing to say.
pub open spec fn config_warnings_of(c: Config, path: Seq<char>) -> Seq<Seq<char>> {
    let unused = match unused_keys_message(path, unused_paths(c)) {
        Some(m) => seq![m],
        None => Seq::empty(),
    };
    let mutable = if mutable_rev_sources(c.repos@).len() > 0 {
        seq![mutable_rev_message(mutable_rev_sources(c.repos@))]
    } else {
        Seq::empty()
    };
    unused + mutable
}

/// The warnings to give about the configuration `config` read from `path`.
pub fn config_warnings(config: &Config, path: &str) -> (r: Vec<String>)
    ensures
        strs_view(r@) == config_warnings_of(*config, path@),
{
    let mut r: Vec<String> = Vec::new();
    let unused = collect_unused_paths(config);
    match unused_keys_warning(path, &unused) {
        Some(w) => r.push(w),
        None => {},
    }
    match mutable_rev_warning(config) {
        Some(w) => r.push(w),
        None => {},
    }
    proof {
        assert(strs_view(r@) =~= config_warnings_of(*config, path@));
    }
    r
}

} // verus!
