//! Finding the workspace and its projects: where the workspace root is, which
//! configuration file a directory uses, the order of the projects, and when
//! the cached discovery can be reused.
use vstd::prelude::*;

use crate::hook::HookError;
use crate::config::{PREK_TOML, PRE_COMMIT_CONFIG_YAML, PRE_COMMIT_CONFIG_YML};
use crate::order::{is_permutation, keys_view, sorted_stably, stable_order};
use crate::text::{concat2, concat3, join, join_seq, push_str, str_eq, string_of, strs_view};

verus! {

/// Errors of workspace discovery.
#[derive(Debug)]
pub enum WorkspaceError {
    /// No configuration file in the directory or any parent up to the git root.
    MissingConfigFile,
    /// A configured hook id that the repository does not define.
    HookNotFound { hook: String, repo: String },
    /// A hook that cannot be set up.
    Hook(HookError),
}

/// The message of an error; `hint` labels the hint.
pub open spec fn workspace_error_message(e: WorkspaceError, hint: Seq<char>) -> Seq<char> {
    match e {
        WorkspaceError::MissingConfigFile => "No `prek.toml` or `.pre-commit-config.yaml` found in the current directory or parent directories.\n\n"@
            + hint
            + " If you just added one, rerun your command with the `--refresh` flag to rescan the workspace."@,
        WorkspaceError::HookNotFound { hook, repo } => "Hook `"@ + hook@ + "` not present in repo `"@
            + repo@ + "`"@,
        WorkspaceError::Hook(h) => h.headline_of(),
    }
}

impl WorkspaceError {
    pub fn message(&self, hint: &str) -> (m: String)
        ensures
            m@ == workspace_error_message(*self, hint@),
    {
        match self {
            WorkspaceError::MissingConfigFile => concat3(
                "No `prek.toml` or `.pre-commit-config.yaml` found in the current directory or parent directories.\n\n",
                hint,
                " If you just added one, rerun your command with the `--refresh` flag to rescan the workspace.",
            ),
            WorkspaceError::HookNotFound { hook, repo } => {
                let mut v: Vec<char> = Vec::new();
                push_str(&mut v, "Hook `");
                push_str(&mut v, hook.as_str());
                push_str(&mut v, "` not present in repo `");
                push_str(&mut v, repo.as_str());
                push_str(&mut v, "`");
                string_of(v.as_slice())
            },
            WorkspaceError::Hook(h) => h.headline(),
        }
    }
}

/// The names a project's configuration file may have, in order of preference.
pub open spec fn config_names() -> Seq<Seq<char>> {
    seq![PREK_TOML@, PRE_COMMIT_CONFIG_YAML@, PRE_COMMIT_CONFIG_YML@]
}

/// An optional text by its characters.
pub open spec fn opt_text(o: Option<&str>) -> Option<Seq<char>> {
    match o {
        Some(p) => Some(p@),
        None => None,
    }
}

/// The workspace root among `ancestors` (a directory, then its parents, in
/// order): the first that has a configuration file, searching no higher than
/// the git root (so stopping before its parent, `git_root_parent`).
pub open spec fn root_index(
    ancestors: Seq<Seq<char>>,
    git_root_parent: Option<Seq<char>>,
    has_config: Seq<bool>,
    i: int,
) -> bool {
    &&& 0 <= i < ancestors.len()
    &&& has_config[i]
    &&& forall|j: int| 0 <= j <= i ==> Some(ancestors[j]) != git_root_parent
    &&& forall|j: int| 0 <= j < i ==> !has_config[j]
}

/// Finds the workspace root: the index in `ancestors` of the first directory
/// with a configuration file, not going above the git root.
pub fn find_root_index(
    ancestors: &Vec<String>,
    git_root_parent: Option<&str>,
    has_config: &Vec<bool>,
) -> (r: Result<usize, WorkspaceError>)
    requires
        ancestors@.len() == has_config@.len(),
    ensures
        match r {
            Ok(i) => root_index(
                strs_view(ancestors@),
                opt_text(git_root_parent),
                has_config@,
                i as int,
            ),
            Err(e) => e is MissingConfigFile && forall|i: int|
                !#[trigger] root_index(
                    strs_view(ancestors@),
                    opt_text(git_root_parent),
                    has_config@,
                    i,
                ),
        },
{
    let ghost parent = opt_text(git_root_parent);
    let ghost av = strs_view(ancestors@);
    let mut i: usize = 0;
    while i < ancestors.len()
        invariant
            i <= ancestors@.len(),
            ancestors@.len() == has_config@.len(),
            av == strs_view(ancestors@),
            parent == opt_text(git_root_parent),
            forall|j: int| 0 <= j < i ==> Some(#[trigger] av[j]) != parent,
            forall|j: int| 0 <= j < i ==> !#[trigger] has_config@[j],
        decreases ancestors.len() - i,
    {
        let at_boundary = match git_root_parent {
            Some(p) => str_eq(ancestors[i].as_str(), p),
            None => false,
        };
        if at_boundary {
            proof {
                assert(Some(av[i as int]) == parent);
                assert forall|x: int| !#[trigger] root_index(av, parent, has_config@, x) by {
                    if 0 <= x < av.len() && x >= i && forall|j: int| 0 <= j <= x ==> Some(av[j]) != parent {
                        assert(Some(av[i as int]) != parent);
                    }
                }
            }
            return Err(WorkspaceError::MissingConfigFile);
        }
        proof {
            assert(av[i as int] == ancestors@[i as int]@);
            assert(Some(av[i as int]) != parent);
        }
        if has_config[i] {
            return Ok(i);
        }
        i = i + 1;
    }
    Err(WorkspaceError::MissingConfigFile)
}

/// The warning when a directory has more than one configuration file:
/// `found` holds the names present, `selected` is the one used, as shown.
pub open spec fn multiple_configs_message(found: Seq<Seq<char>>, selected: Seq<char>) -> Seq<char> {
    "Multiple configuration files found ("@ + join_seq(
        found.map_values(|n: Seq<char>| "`"@ + n + "`"@),
        ", "@,
    ) + "); using `"@ + selected + "`"@
}

/// The names of the configuration files present, in order of preference.
pub open spec fn present_names(present: Seq<bool>) -> Seq<Seq<char>> {
    Seq::new(3, |i: int| i).filter(|i: int| present[i]).map_values(|i: int| config_names()[i])
}

/// Which configuration file a directory uses, given which of `prek.toml`,
/// `.pre-commit-config.yaml` and `.pre-commit-config.yml` it has: the first
/// present, with a warning when there are several (`selected` shows the path
/// of the one used). `None` when there is none.
pub fn select_config(present: [bool; 3], selected_path: &str) -> (r: Option<(usize, Option<String>)>)
    ensures
        match r {
            None => !present[0] && !present[1] && !present[2],
            Some((i, w)) => i < 3 && present[i as int] && (forall|j: int| 0 <= j < i ==> !present[j])
                && match w {
                Some(m) => (present[0] as int + present[1] as int + present[2] as int) > 1 && m@
                    == multiple_configs_message(
                    present_names(present@),
                    selected_path@,
                ),
                None => (present[0] as int + present[1] as int + present[2] as int) <= 1,
            },
        },
{
    let first = if present[0] {
        0
    } else if present[1] {
        1
    } else if present[2] {
        2
    } else {
        return None;
    };
    let count: usize = (if present[0] { 1usize } else { 0 }) + (if present[1] { 1usize } else { 0 })
        + (if present[2] { 1usize } else { 0 });
    if count <= 1 {
        return Some((first, None));
    }
    let mut names: Vec<String> = Vec::new();
    let ghost idxs = Seq::new(3, |i: int| i);
    if present[0] {
        names.push(concat3("`", PREK_TOML, "`"));
    }
    if present[1] {
        names.push(concat3("`", PRE_COMMIT_CONFIG_YAML, "`"));
    }
    if present[2] {
        names.push(concat3("`", PRE_COMMIT_CONFIG_YML, "`"));
    }
    proof {
        reveal_with_fuel(Seq::<_>::filter, 4);
        assert(idxs.take(1) =~= seq![0int]);
        assert(idxs.take(2) =~= seq![0int, 1int]);
        assert(idxs.take(3) =~= idxs);
        assert(idxs.take(2).drop_last() =~= idxs.take(1));
        assert(idxs.take(3).drop_last() =~= idxs.take(2));
        assert(idxs.take(1).drop_last() =~= Seq::<int>::empty());
        let pn = present_names(present@);
        assert(strs_view(names@) =~= pn.map_values(|n: Seq<char>| "`"@ + n + "`"@));
    }
    let mut v: Vec<char> = Vec::new();
    push_str(&mut v, "Multiple configuration files found (");
    push_str(&mut v, join(&names, ", ").as_str());
    push_str(&mut v, "); using `");
    push_str(&mut v, selected_path);
    push_str(&mut v, "`");
    Some((first, Some(string_of(v.as_slice()))))
}

/// A project as shown to the user: `.` for the workspace root, else its
/// directory relative to the root.
pub fn project_display(relative: &str) -> (r: String)
    ensures
        r@ == (if relative@.len() == 0 {
            "."@
        } else {
            relative@
        }),
{
    if relative.is_empty() {
        ".".to_string()
    } else {
        relative.to_string()
    }
}

/// The order of the projects of a workspace, given the parts of each
/// project's directory relative to the root: the deepest first, then by path.
/// A project's index is its place in this order.
pub fn project_order(relative_paths: &Vec<Vec<String>>) -> (order: Vec<usize>)
    ensures
        is_permutation(order@, relative_paths@.len()),
        sorted_stably(
            relative_paths@.map_values(
                |p: Vec<String>| (p@.len(), p@.map_values(|s: String| s@)),
            ),
            order@,
        ),
{
    let mut keys: Vec<(usize, Vec<String>)> = Vec::new();
    let mut i: usize = 0;
    while i < relative_paths.len()
        invariant
            i <= relative_paths@.len(),
            keys@.len() == i,
            forall|j: int|
                0 <= j < i ==> keys_view(keys@)[j] == (
                    relative_paths@[j]@.len(),
                    relative_paths@[j]@.map_values(|s: String| s@),
                ),
        decreases relative_paths.len() - i,
    {
        let ghost before = keys@;
        let parts = crate::text::clone_strings(&relative_paths[i]);
        keys.push((relative_paths[i].len(), parts));
        proof {
            assert forall|j: int| 0 <= j < i + 1 implies keys_view(keys@)[j] == (
                relative_paths@[j]@.len(),
                relative_paths@[j]@.map_values(|s: String| s@),
            ) by {
                if j < i {
                    assert(keys@[j] == before[j]);
                    assert(keys_view(before)[j] == keys_view(keys@)[j]);
                }
            }
        }
        i = i + 1;
    }
    proof {
        assert(keys_view(keys@) =~= relative_paths@.map_values(
            |p: Vec<String>| (p@.len(), p@.map_values(|s: String| s@)),
        ));
    }
    stable_order(&keys)
}

/// The order in which to report repositories: by URL.
pub fn url_order(urls: &Vec<String>) -> (order: Vec<usize>)
    ensures
        is_permutation(order@, urls@.len()),
        sorted_stably(urls@.map_values(|u: String| (0nat, seq![u@])), order@),
{
    let mut keys: Vec<(usize, Vec<String>)> = Vec::new();
    let mut i: usize = 0;
    while i < urls.len()
        invariant
            i <= urls@.len(),
            keys@.len() == i,
            forall|j: int| 0 <= j < i ==> keys_view(keys@)[j] == (0nat, seq![urls@[j]@]),
        decreases urls.len() - i,
    {
        let ghost before = keys@;
        let mut one: Vec<String> = Vec::new();
        one.push(urls[i].clone());
        keys.push((0, one));
        proof {
            assert(keys_view(keys@)[i as int].1 =~= seq![urls@[i as int]@]);
            assert forall|j: int| 0 <= j < i + 1 implies keys_view(keys@)[j] == (0nat, seq![urls@[j]@]) by {
                if j < i {
                    assert(keys@[j] == before[j]);
                    assert(keys_view(before)[j] == keys_view(keys@)[j]);
                }
            }
        }
        i = i + 1;
    }
    proof {
        assert(keys_view(keys@) =~= urls@.map_values(|u: String| (0nat, seq![u@])));
    }
    stable_order(&keys)
}

/// The version of the cache format.
pub const CACHE_VERSION: u32 = 1;

/// How old, in seconds, a cached discovery may be before it is redone.
pub const MAX_CACHE_AGE: u64 = 3600;

/// A configuration file as the cache saw it: its modification time (seconds
/// and nanoseconds since the Unix epoch) and its size.
#[derive(Debug, Clone, Copy, PartialEq, Eq, Structural)]
pub struct FileStamp {
    pub modified_secs: u64,
    pub modified_nanos: u32,
    pub size: u64,
}

/// Whether a cached discovery can be used: it is no older than
/// `MAX_CACHE_AGE` (when its age can be told), each recorded configuration
/// file still exists unchanged (`files` pairs the recorded stamp with the
/// current one, `None` for a file that is gone), and the root still exists.
pub open spec fn cache_valid(age_secs: Option<u64>, files: Seq<(FileStamp, Option<FileStamp>)>, root_exists: bool) -> bool {
    &&& (age_secs matches Some(a) ==> a <= MAX_CACHE_AGE)
    &&& forall|k: int| 0 <= k < files.len() ==> (#[trigger] files[k]).1 == Some(files[k].0)
    &&& root_exists
}

pub fn cache_is_valid(age_secs: Option<u64>, files: &Vec<(FileStamp, Option<FileStamp>)>, root_exists: bool) -> (b: bool)
    ensures
        b == cache_valid(age_secs, files@, root_exists),
{
    if let Some(a) = age_secs {
        if a > MAX_CACHE_AGE {
            return false;
        }
    }
    let mut k: usize = 0;
    while k < files.len()
        invariant
            k <= files@.len(),
            forall|j: int| 0 <= j < k ==> (#[trigger] files@[j]).1 == Some(files@[j].0),
        decreases files.len() - k,
    {
        match files[k].1 {
            Some(now) => {
                if now != files[k].0 {
                    return false;
                }
            },
            None => {
                return false;
            },
        }
        k = k + 1;
    }
    root_exists
}

/// Whether a cache read from disk is used: not when a rescan was asked for,
/// and only when its version is current and it is still valid.
pub fn use_cache(
    refresh: bool,
    version: u32,
    age_secs: Option<u64>,
    files: &Vec<(FileStamp, Option<FileStamp>)>,
    root_exists: bool,
) -> (b: bool)
    ensures
        b == (!refresh && version == CACHE_VERSION && cache_valid(age_secs, files@, root_exists)),
{
    !refresh && version == CACHE_VERSION && cache_is_valid(age_secs, files, root_exists)
}

/// The lowercase hexadecimal digit for `d` (below 16).
pub open spec fn hex_digit(d: nat) -> char {
    if d < 10 {
        ((d + 48) as u8) as char
    } else {
        ((d + 87) as u8) as char
    }
}

/// `bytes` in lowercase hexadecimal, two digits per byte, high digit first.
pub open spec fn hex_text(bytes: Seq<u8>) -> Seq<char>
    decreases bytes.len(),
{
    if bytes.len() == 0 {
        Seq::empty()
    } else {
        seq![hex_digit((bytes[0] / 16) as nat), hex_digit((bytes[0] % 16) as nat)] + hex_text(
            bytes.drop_first(),
        )
    }
}

/// Encodes bytes as lowercase hexadecimal (`hex::encode`).
#[verifier::external_body]
fn hex_encode(bytes: &[u8]) -> (r: String)
    ensures
        r@ == hex_text(bytes@),
{
    hex::encode(bytes)
}

/// The `count` bytes of `n` from the least significant.
pub open spec fn le_bytes(n: nat, count: nat) -> Seq<u8>
    decreases count,
{
    if count == 0 {
        Seq::empty()
    } else {
        seq![(n % 256) as u8] + le_bytes(n / 256, (count - 1) as nat)
    }
}

proof fn lemma_le_bytes_len(n: nat, count: nat)
    ensures
        le_bytes(n, count).len() == count,
    decreases count,
{
    if count > 0 {
        lemma_le_bytes_len(n / 256, (count - 1) as nat);
    }
}

proof fn lemma_hex_text_len(bytes: Seq<u8>)
    ensures
        hex_text(bytes).len() == 2 * bytes.len(),
    decreases bytes.len(),
{
    if bytes.len() > 0 {
        lemma_hex_text_len(bytes.drop_first());
    }
}

/// The name of the cache file of a workspace whose root hashes to `digest`:
/// the hash's eight little-endian bytes in hexadecimal.
pub fn cache_file_name(digest: u64) -> (r: String)
    ensures
        r@ == hex_text(le_bytes(digest as nat, 8)),
        r@.len() == 16,
{
    proof {
        lemma_le_bytes_len(digest as nat, 8);
        lemma_hex_text_len(le_bytes(digest as nat, 8));
    }
    let mut bytes: Vec<u8> = Vec::new();
    let mut n: u64 = digest;
    let mut k: usize = 0;
    while k < 8
        invariant
            k <= 8,
            bytes@ + le_bytes(n as nat, (8 - k) as nat) == le_bytes(digest as nat, 8),
        decreases 8 - k,
    {
        let b = (n % 256) as u8;
        proof {
            assert(le_bytes(n as nat, (8 - k) as nat) == seq![(n % 256) as u8] + le_bytes(
                (n / 256) as nat,
                (8 - k - 1) as nat,
            ));
            assert(bytes@.push(b) + le_bytes((n / 256) as nat, (8 - k - 1) as nat) =~= bytes@
                + le_bytes(n as nat, (8 - k) as nat));
        }
        bytes.push(b);
        n = n / 256;
        k = k + 1;
    }
    proof {
        assert(bytes@ + Seq::<u8>::empty() =~= bytes@);
    }
    hex_encode(bytes.as_slice())
}

/// The command that stages a file: `git add <path>`.
pub fn git_add_command(path: &str) -> (r: String)
    ensures
        r@ == "git add "@ + path@,
{
    concat2("git add ", path)
}

/// The error when configuration files are not staged: for one file, how to
/// stage it (`command`, as shown); for several, the list of their paths.
pub open spec fn unstaged_message(paths: Seq<Seq<char>>, command: Seq<char>) -> Seq<char> {
    if paths.len() == 1 {
        "prek configuration file is not staged, run `"@ + command + "` to stage it"@
    } else {
        "The following configuration files are not staged, `git add` them first:\n"@ + join_seq(
            paths.map_values(|p: Seq<char>| "  "@ + p),
            "\n"@,
        )
    }
}

/// Checks that every configuration file is staged; `unstaged` lists, as shown,
/// those that are not, and `command` is the command that stages the first.
pub fn check_configs_staged(unstaged: &Vec<String>, command: &str) -> (r: Result<(), String>)
    ensures
        match r {
            Ok(()) => unstaged@.len() == 0,
            Err(m) => unstaged@.len() > 0 && m@ == unstaged_message(strs_view(unstaged@), command@),
        },
{
    if unstaged.len() == 0 {
        return Ok(());
    }
    if unstaged.len() == 1 {
        return Err(concat3("prek configuration file is not staged, run `", command, "` to stage it"));
    }
    let mut lines: Vec<String> = Vec::new();
    let mut i: usize = 0;
    while i < unstaged.len()
        invariant
            i <= unstaged@.len(),
            strs_view(lines@) == strs_view(unstaged@.take(i as int)).map_values(|p: Seq<char>| "  "@ + p),
        decreases unstaged.len() - i,
    {
        let ghost before = strs_view(lines@);
        lines.push(concat2("  ", unstaged[i].as_str()));
        proof {
            assert(strs_view(lines@) =~= before.push("  "@ + unstaged@[i as int]@));
            assert(strs_view(unstaged@.take(i + 1)) =~= strs_view(unstaged@.take(i as int)).push(
                unstaged@[i as int]@,
            ));
            assert(strs_view(unstaged@.take(i + 1)).map_values(|p: Seq<char>| "  "@ + p)
                =~= strs_view(unstaged@.take(i as int)).map_values(|p: Seq<char>| "  "@ + p).push(
                "  "@ + unstaged@[i as int]@,
            ));
        }
        i = i + 1;
    }
    proof {
        assert(unstaged@.take(unstaged@.len() as int) =~= unstaged@);
    }
    Err(concat2(
        "The following configuration files are not staged, `git add` them first:\n",
        join(&lines, "\n").as_str(),
    ))
}

/// What a directory met while walking the workspace turned out to be.
#[derive(Debug, Clone, Copy, PartialEq, Eq, Structural)]
pub enum DirOutcome {
    /// It holds a project, which is recorded.
    Project,
    /// It has no configuration file.
    NoConfig,
    /// Its configuration could not be read.
    Failed,
}

/// How the walk of the workspace goes on after a directory.
#[derive(Debug, Clone, Copy, PartialEq, Eq, Structural)]
pub enum WalkStep {
    /// Go on, into the directory too.
    Continue,
    /// Go on, but not into the directory.
    Skip,
    /// Stop the walk, failing with the directory's error.
    Quit,
}

/// The step after a directory: a directory whose configuration fails stops
/// the walk when the selectors name it (`selected`), and is left out with what
/// is under it otherwise.
pub fn walk_step(outcome: DirOutcome, selected: bool) -> (s: WalkStep)
    ensures
        s == (match outcome {
            DirOutcome::Failed => if selected {
                WalkStep::Quit
            } else {
                WalkStep::Skip
            },
            _ => WalkStep::Continue,
        }),
{
    match outcome {
        DirOutcome::Failed => if selected {
            WalkStep::Quit
        } else {
            WalkStep::Skip
        },
        _ => WalkStep::Continue,
    }
}

/// Whether the `p`-th project is selected: always, when no selectors were given.
pub open spec fn chosen(selected: Option<&Vec<bool>>, p: int) -> bool {
    match selected {
        Some(s) => s@[p],
        None => true,
    }
}

/// The projects to work on, given whether each project the walk found is
/// selected (`None` when no selectors were given, and then all are): an error
/// when there are none.
pub fn selected_projects(count: usize, selected: Option<&Vec<bool>>) -> (r: Result<Vec<usize>, WorkspaceError>)
    requires
        selected matches Some(v) ==> v@.len() == count,
    ensures
        match r {
            Ok(v) => v@.len() > 0 && (forall|i: int, j: int| 0 <= i < j < v@.len() ==> v@[i] < v@[j])
                && forall|p: int|
                0 <= p < count ==> (v@.contains(p as usize) <==> #[trigger] chosen(selected, p)),
            Err(e) => e is MissingConfigFile && forall|p: int|
                0 <= p < count ==> !#[trigger] chosen(selected, p),
        },
{
    let mut out: Vec<usize> = Vec::new();
    let mut p: usize = 0;
    while p < count
        invariant
            p <= count,
            selected matches Some(v) ==> v@.len() == count,
            forall|i: int, j: int| 0 <= i < j < out@.len() ==> out@[i] < out@[j],
            forall|i: int| 0 <= i < out@.len() ==> out@[i] < p,
            forall|q: int|
                0 <= q < p ==> (out@.contains(q as usize) <==> #[trigger] chosen(selected, q)),
        decreases count - p,
    {
        let take = match selected {
            Some(s) => s[p],
            None => true,
        };
        let ghost before = out@;
        if take {
            out.push(p);
        }
        proof {
            assert forall|q: int| 0 <= q < p + 1 implies (out@.contains(q as usize) <==> #[trigger] chosen(selected, q)) by {
                if q < p {
                    if out@.contains(q as usize) {
                        let k = choose|k: int| 0 <= k < out@.len() && out@[k] == q as usize;
                        if take {
                            assert(k < before.len());
                            assert(before[k] == q as usize);
                        }
                        assert(before.contains(q as usize));
                    }
                    if before.contains(q as usize) {
                        let k = choose|k: int| 0 <= k < before.len() && before[k] == q as usize;
                        assert(out@[k] == q as usize);
                    }
                } else {
                    if take {
                        assert(out@[out@.len() - 1] == p);
                    } else if out@.contains(q as usize) {
                        let k = choose|k: int| 0 <= k < out@.len() && out@[k] == q as usize;
                        assert(out@[k] < p);
                    }
                }
            }
        }
        p = p + 1;
    }
    if out.len() == 0 {
        proof {
            assert forall|q: int| 0 <= q < count implies !#[trigger] chosen(selected, q) by {
                assert(!out@.contains(q as usize));
            }
        }
        return Err(WorkspaceError::MissingConfigFile);
    }
    Ok(out)
}

} // verus!
