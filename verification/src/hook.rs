//! Hooks as prek runs them: a configured hook resolved against its repository's
//! manifest, the project defaults and the built-in defaults.
use vstd::prelude::*;

use crate::config::{BuiltinHook, Config, Language, ManifestHook, MetaHook, RemoteHook, Stage};
use crate::options::{clone_opt_stages, opt_stages_view, EnvMap, HookOptions};
use crate::text::{
    clone_strings, concat2, concat3, lemma_push_contains, join, join_seq, opt_str_view, opt_strs_view, push_str, str_eq,
    string_of, strs_view,
};

verus! {

/// Why a hook cannot be set up.
#[derive(Debug)]
pub enum HookError {
    /// The hook definition is invalid; `message` says why.
    Hook { hook: String, message: String },
    /// The manifest of a remote repository could not be read; `message` says why.
    Manifest { repo: String, message: String },
}

impl HookError {
    /// The headline of the error (its cause is in `message`).
    pub open spec fn headline_of(&self) -> Seq<char> {
        match self {
            HookError::Hook { hook, .. } => "Invalid hook `"@ + hook@ + "`"@,
            HookError::Manifest { repo, .. } => "Failed to read manifest of `"@ + repo@ + "`"@,
        }
    }

    pub fn headline(&self) -> (s: String)
        ensures
            s@ == self.headline_of(),
    {
        match self {
            HookError::Hook { hook, .. } => concat3("Invalid hook `", hook.as_str(), "`"),
            HookError::Manifest { repo, .. } => concat3(
                "Failed to read manifest of `",
                repo.as_str(),
                "`",
            ),
        }
    }
}

/// A repository of hooks, with the hook definitions it provides.
#[derive(Debug)]
pub enum HookRepo {
    Remote {
        /// Path to the cloned repository.
        path: String,
        url: String,
        rev: String,
        hooks: Vec<ManifestHook>,
    },
    Local { hooks: Vec<ManifestHook> },
    Meta { hooks: Vec<ManifestHook> },
    Builtin { hooks: Vec<ManifestHook> },
}

impl HookRepo {
    /// The hook definitions the repository provides.
    pub open spec fn hooks(&self) -> Seq<ManifestHook> {
        match self {
            HookRepo::Remote { hooks, .. } => hooks@,
            HookRepo::Local { hooks } => hooks@,
            HookRepo::Meta { hooks } => hooks@,
            HookRepo::Builtin { hooks } => hooks@,
        }
    }

    /// How the repository is named in messages: `url@rev`, `local`, `meta` or `builtin`.
    pub open spec fn label(&self) -> Seq<char> {
        match self {
            HookRepo::Remote { url, rev, .. } => url@ + "@"@ + rev@,
            HookRepo::Local { .. } => "local"@,
            HookRepo::Meta { .. } => "meta"@,
            HookRepo::Builtin { .. } => "builtin"@,
        }
    }

    /// A remote repository cloned at `path`, providing the hooks of its manifest.
    pub fn remote(url: String, rev: String, path: String, manifest: Vec<ManifestHook>) -> (r: Self)
        ensures
            r == (HookRepo::Remote { path, url, rev, hooks: manifest }),
    {
        HookRepo::Remote { path, url, rev, hooks: manifest }
    }

    /// Construct a local repo from a list of hooks.
    pub fn local(hooks: Vec<ManifestHook>) -> (r: Self)
        ensures
            r == (HookRepo::Local { hooks }),
    {
        HookRepo::Local { hooks }
    }

    /// Construct a meta repo.
    pub fn meta(hooks: Vec<MetaHook>) -> (r: Self)
        ensures
            r matches HookRepo::Meta { hooks: h } && h@ == hooks@.map_values(|m: MetaHook| m.0),
    {
        let mut out: Vec<ManifestHook> = Vec::new();
        let mut rest = hooks;
        let ghost all = rest@;
        let ghost mut k: int = 0;
        proof {
            assert(rest@ =~= all.skip(0));
            assert(out@ =~= all.take(0).map_values(|m: MetaHook| m.0));
        }
        while rest.len() > 0
            invariant
                0 <= k <= all.len(),
                rest@ == all.skip(k),
                out@ == all.take(k).map_values(|m: MetaHook| m.0),
            decreases rest.len(),
        {
            let ghost before = rest@;
            let h = rest.remove(0);
            out.push(h.0);
            proof {
                assert(before[0] == all[k]);
                k = k + 1;
                assert(rest@ =~= all.skip(k));
                assert(out@ =~= all.take(k).map_values(|m: MetaHook| m.0));
            }
        }
        proof {
            assert(all.take(k) =~= all);
        }
        HookRepo::Meta { hooks: out }
    }

    /// Construct a builtin repo.
    pub fn builtin(hooks: Vec<BuiltinHook>) -> (r: Self)
        ensures
            r matches HookRepo::Builtin { hooks: h } && h@ == hooks@.map_values(
                |m: BuiltinHook| m.0,
            ),
    {
        let mut out: Vec<ManifestHook> = Vec::new();
        let mut rest = hooks;
        let ghost all = rest@;
        let ghost mut k: int = 0;
        proof {
            assert(rest@ =~= all.skip(0));
            assert(out@ =~= all.take(0).map_values(|m: BuiltinHook| m.0));
        }
        while rest.len() > 0
            invariant
                0 <= k <= all.len(),
                rest@ == all.skip(k),
                out@ == all.take(k).map_values(|m: BuiltinHook| m.0),
            decreases rest.len(),
        {
            let ghost before = rest@;
            let h = rest.remove(0);
            out.push(h.0);
            proof {
                assert(before[0] == all[k]);
                k = k + 1;
                assert(rest@ =~= all.skip(k));
                assert(out@ =~= all.take(k).map_values(|m: BuiltinHook| m.0));
            }
        }
        proof {
            assert(all.take(k) =~= all);
        }
        HookRepo::Builtin { hooks: out }
    }

    /// Get the path to the cloned repo if it is a remote repo.
    pub fn path(&self) -> (r: Option<&str>)
        ensures
            match self {
                HookRepo::Remote { path, .. } => r matches Some(p) && p@ == path@,
                _ => r is None,
            },
    {
        match self {
            HookRepo::Remote { path, .. } => Some(path.as_str()),
            _ => None,
        }
    }

    pub fn is_remote(&self) -> (b: bool)
        ensures
            b == (self is Remote),
    {
        matches!(self, HookRepo::Remote { .. })
    }

    /// The first hook definition with id `id`.
    pub fn get_hook(&self, id: &str) -> (r: Option<&ManifestHook>)
        ensures
            match r {
                Some(h) => exists|i: int|
                    0 <= i < self.hooks().len() && self.hooks()[i] == *h && h.id@ == id@
                        && forall|j: int| 0 <= j < i ==> (#[trigger] self.hooks()[j]).id@ != id@,
                None => forall|j: int|
                    0 <= j < self.hooks().len() ==> (#[trigger] self.hooks()[j]).id@ != id@,
            },
    {
        let hooks = match self {
            HookRepo::Remote { hooks, .. } => hooks,
            HookRepo::Local { hooks } => hooks,
            HookRepo::Meta { hooks } => hooks,
            HookRepo::Builtin { hooks } => hooks,
        };
        let mut i: usize = 0;
        while i < hooks.len()
            invariant
                hooks@ == self.hooks(),
                i <= hooks@.len(),
                forall|j: int| 0 <= j < i ==> (#[trigger] hooks@[j]).id@ != id@,
            decreases hooks.len() - i,
        {
            if str_eq(hooks[i].id.as_str(), id) {
                return Some(&hooks[i]);
            }
            i = i + 1;
        }
        None
    }

    /// The repository as named in messages.
    pub fn display(&self) -> (s: String)
        ensures
            s@ == self.label(),
    {
        match self {
            HookRepo::Remote { url, rev, .. } => concat3(url.as_str(), "@", rev.as_str()),
            HookRepo::Local { .. } => "local".to_owned(),
            HookRepo::Meta { .. } => "meta".to_owned(),
            HookRepo::Builtin { .. } => "builtin".to_owned(),
        }
    }
}

/// Each definition of `a` holds the same as the one at its place in `b`.
pub open spec fn same_hooks(a: Seq<ManifestHook>, b: Seq<ManifestHook>) -> bool {
    &&& a.len() == b.len()
    &&& forall|k: int| 0 <= k < a.len() ==> (#[trigger] a[k]).same_as(&b[k])
}

/// Every definition is well formed.
pub open spec fn all_wf(a: Seq<ManifestHook>) -> bool {
    forall|k: int| 0 <= k < a.len() ==> (#[trigger] a[k]).wf()
}

/// Copies of the definitions `v`.
pub fn duplicate_hooks(v: &Vec<ManifestHook>) -> (r: Vec<ManifestHook>)
    requires
        all_wf(v@),
    ensures
        all_wf(r@),
        same_hooks(r@, v@),
{
    let mut r: Vec<ManifestHook> = Vec::new();
    let mut i: usize = 0;
    while i < v.len()
        invariant
            i <= v@.len(),
            all_wf(v@),
            r@.len() == i,
            forall|k: int| 0 <= k < i ==> (#[trigger] r@[k]).wf() && r@[k].same_as(&v@[k]),
        decreases v.len() - i,
    {
        assert(v@[i as int].wf());
        r.push(v[i].duplicate());
        i = i + 1;
    }
    r
}

impl HookRepo {
    /// The hook definitions of the repository are well formed.
    pub open spec fn wf(&self) -> bool {
        all_wf(self.hooks())
    }

    /// Both are the same repository with the same definitions.
    pub open spec fn same_as(&self, o: &HookRepo) -> bool {
        match (*self, *o) {
            (
                HookRepo::Remote { path: p1, url: u1, rev: r1, hooks: h1 },
                HookRepo::Remote { path: p2, url: u2, rev: r2, hooks: h2 },
            ) => p1@ == p2@ && u1@ == u2@ && r1@ == r2@ && same_hooks(h1@, h2@),
            (HookRepo::Local { hooks: h1 }, HookRepo::Local { hooks: h2 }) => same_hooks(h1@, h2@),
            (HookRepo::Meta { hooks: h1 }, HookRepo::Meta { hooks: h2 }) => same_hooks(h1@, h2@),
            (HookRepo::Builtin { hooks: h1 }, HookRepo::Builtin { hooks: h2 }) => same_hooks(h1@, h2@),
            _ => false,
        }
    }

    /// A copy of the repository.
    pub fn duplicate(&self) -> (r: HookRepo)
        requires
            self.wf(),
        ensures
            r.wf(),
            r.same_as(self),
    {
        match self {
            HookRepo::Remote { path, url, rev, hooks } => HookRepo::Remote {
                path: path.clone(),
                url: url.clone(),
                rev: rev.clone(),
                hooks: duplicate_hooks(hooks),
            },
            HookRepo::Local { hooks } => HookRepo::Local { hooks: duplicate_hooks(hooks) },
            HookRepo::Meta { hooks } => HookRepo::Meta { hooks: duplicate_hooks(hooks) },
            HookRepo::Builtin { hooks } => HookRepo::Builtin { hooks: duplicate_hooks(hooks) },
        }
    }
}


} // verus!

verus! {

/// The words of `s` as a POSIX shell splits them (`shlex::split`): `None`
/// when the quoting is unbalanced.
pub uninterp spec fn shlex_words(s: Seq<char>) -> Option<Seq<Seq<char>>>;

/// Splits a command line into words (`shlex::split`).
#[verifier::external_body]
fn shlex_split(s: &str) -> (r: Option<Vec<String>>)
    ensures
        match r {
            Some(v) => shlex_words(s@) == Some(strs_view(v@)),
            None => shlex_words(s@) is None,
        },
{
    shlex::split(s)
}

/// The command of a hook.
#[derive(Debug)]
pub struct Entry {
    hook: String,
    entry: String,
}

impl Entry {
    pub closed spec fn hook_id(&self) -> Seq<char> {
        self.hook@
    }

    pub closed spec fn text(&self) -> Seq<char> {
        self.entry@
    }

    pub fn new(hook: String, entry: String) -> (e: Self)
        ensures
            e.hook_id() == hook@,
            e.text() == entry@,
    {
        Self { hook, entry }
    }

    /// Split the entry into a list of words; an entry that does not split, or
    /// splits into nothing, is refused.
    pub fn split(&self) -> (r: Result<Vec<String>, HookError>)
        ensures
            match shlex_words(self.text()) {
                None => r matches Err(HookError::Hook { hook, message }) && hook@ == self.hook_id()
                    && message@ == "Failed to parse entry `"@ + self.text() + "` as commands"@,
                Some(words) => if words.len() == 0 {
                    r matches Err(HookError::Hook { hook, message }) && hook@ == self.hook_id()
                        && message@ == "Failed to parse entry: entry is empty"@
                } else {
                    r matches Ok(v) && strs_view(v@) == words
                },
            },
    {
        match shlex_split(self.entry.as_str()) {
            None => Err(
                HookError::Hook {
                    hook: self.hook.clone(),
                    message: concat3(
                        "Failed to parse entry `",
                        self.entry.as_str(),
                        "` as commands",
                    ),
                },
            ),
            Some(splits) => {
                if splits.len() == 0 {
                    return Err(
                        HookError::Hook {
                            hook: self.hook.clone(),
                            message: "Failed to parse entry: entry is empty".to_owned(),
                        },
                    );
                }
                Ok(splits)
            },
        }
    }

    /// Get the original entry string.
    pub fn raw(&self) -> (s: &str)
        ensures
            s@ == self.text(),
    {
        self.entry.as_str()
    }
}

/// Whether a language can install an environment, install extra dependencies
/// into it, and install a chosen toolchain version.
#[derive(Debug, Copy, Clone)]
pub struct LanguageSupport {
    pub install_env: bool,
    pub dependencies: bool,
    pub toolchain: bool,
}

/// The stages a hook runs in.
#[derive(Debug)]
pub enum Stages {
    All,
    /// These stages, each once.
    Selected(Vec<Stage>),
}

impl Stages {
    pub open spec fn allows(&self, s: Stage) -> bool {
        match self {
            Stages::All => true,
            Stages::Selected(v) => v@.contains(s),
        }
    }

    pub fn contains(&self, stage: Stage) -> (b: bool)
        ensures
            b == self.allows(stage),
    {
        match self {
            Stages::All => true,
            Stages::Selected(stages) => contains_stage(stages, stage),
        }
    }

    /// `all`, or the names of the stages separated by `, `.
    pub fn display(&self) -> (s: String)
        ensures
            s@ == (match self {
                Stages::All => "all"@,
                Stages::Selected(v) => join_seq(v@.map_values(|x: Stage| x.name()), ", "@),
            }),
    {
        match self {
            Stages::All => "all".to_owned(),
            Stages::Selected(stages) => {
                let mut names: Vec<String> = Vec::new();
                let mut i: usize = 0;
                while i < stages.len()
                    invariant
                        i <= stages@.len(),
                        strs_view(names@) == stages@.take(i as int).map_values(
                            |x: Stage| x.name(),
                        ),
                    decreases stages.len() - i,
                {
                    let ghost before = names@;
                    let n = stages[i].as_str().to_owned();
                    names.push(n);
                    proof {
                        assert(strs_view(names@) =~= strs_view(before).push(n@));
                        assert(stages@.take(i + 1).map_values(|x: Stage| x.name())
                            =~= stages@.take(i as int).map_values(|x: Stage| x.name()).push(
                            stages@[i as int].name(),
                        ));
                    }
                    i = i + 1;
                }
                proof {
                    assert(stages@.take(stages@.len() as int) =~= stages@);
                }
                join(&names, ", ")
            },
        }
    }
}

pub fn contains_stage(v: &Vec<Stage>, s: Stage) -> (b: bool)
    ensures
        b == v@.contains(s),
{
    let mut i: usize = 0;
    while i < v.len()
        invariant
            i <= v@.len(),
            forall|k: int| 0 <= k < i ==> v@[k] != s,
        decreases v.len() - i,
    {
        if v[i] == s {
            return true;
        }
        i = i + 1;
    }
    false
}

/// Every stage occurs in `s`.
pub open spec fn covers_all_stages(s: Seq<Stage>) -> bool {
    forall|x: Stage| s.contains(x)
}

/// The stages a hook configured with `stages` runs in: all of them when the
/// list is absent, empty or names every stage.
pub open spec fn stages_of(stages: Option<Seq<Stage>>, r: Stages) -> bool {
    match stages {
        None => r is All,
        Some(s) => if s.len() == 0 || covers_all_stages(s) {
            r is All
        } else {
            r matches Stages::Selected(v) && v@.no_duplicates() && forall|x: Stage|
                v@.contains(x) == s.contains(x)
        },
    }
}

fn distinct_stages(v: &Vec<Stage>) -> (r: Vec<Stage>)
    ensures
        r@.no_duplicates(),
        forall|x: Stage| r@.contains(x) == v@.contains(x),
{
    let mut r: Vec<Stage> = Vec::new();
    let mut i: usize = 0;
    while i < v.len()
        invariant
            i <= v@.len(),
            r@.no_duplicates(),
            forall|x: Stage| r@.contains(x) == v@.take(i as int).contains(x),
        decreases v.len() - i,
    {
        let s = v[i];
        let ghost before = r@;
        if !contains_stage(&r, s) {
            r.push(s);
            proof {
                assert forall|a: int, b: int| 0 <= a < b < r@.len() implies r@[a] != r@[b] by {
                    if b == r@.len() - 1 {
                        assert(before.contains(r@[a]));
                    }
                }
            }
        }
        proof {
            assert(v@.take(i + 1) =~= v@.take(i as int).push(s));
            assert forall|x: Stage| r@.contains(x) == v@.take(i + 1).contains(x) by {
                lemma_push_contains(v@.take(i as int), s, x);
                lemma_push_contains(before, s, x);
            }
        }
        i = i + 1;
    }
    proof {
        assert(v@.take(v@.len() as int) =~= v@);
    }
    r
}

fn all_stages_present(v: &Vec<Stage>) -> (b: bool)
    ensures
        b == covers_all_stages(v@),
{
    let b = contains_stage(v, Stage::Manual) && contains_stage(v, Stage::CommitMsg)
        && contains_stage(v, Stage::PostCheckout) && contains_stage(v, Stage::PostCommit)
        && contains_stage(v, Stage::PostMerge) && contains_stage(v, Stage::PostRewrite)
        && contains_stage(v, Stage::PreCommit) && contains_stage(v, Stage::PreMergeCommit)
        && contains_stage(v, Stage::PrePush) && contains_stage(v, Stage::PreRebase)
        && contains_stage(v, Stage::PrepareCommitMsg);
    proof {
        if b {
            assert forall|x: Stage| v@.contains(x) by {
                match x {
                    Stage::Manual => {},
                    Stage::CommitMsg => {},
                    Stage::PostCheckout => {},
                    Stage::PostCommit => {},
                    Stage::PostMerge => {},
                    Stage::PostRewrite => {},
                    Stage::PreCommit => {},
                    Stage::PreMergeCommit => {},
                    Stage::PrePush => {},
                    Stage::PreRebase => {},
                    Stage::PrepareCommitMsg => {},
                }
            }
        }
    }
    b
}

/// The stages configured by `stages`.
pub fn resolve_stages(stages: Option<Vec<Stage>>) -> (r: Stages)
    ensures
        stages_of(
            match stages {
                Some(v) => Some(v@),
                None => None,
            },
            r,
        ),
{
    match stages {
        None => Stages::All,
        Some(v) => {
            if v.len() == 0 || all_stages_present(&v) {
                Stages::All
            } else {
                let d = distinct_stages(&v);
                Stages::Selected(d)
            }
        },
    }
}

/// Whether `s` occurs in `v`.
pub fn contains_string(v: &Vec<String>, s: &str) -> (b: bool)
    ensures
        b == strs_view(v@).contains(s@),
{
    let mut i: usize = 0;
    while i < v.len()
        invariant
            i <= v@.len(),
            forall|k: int| 0 <= k < i ==> v@[k]@ != s@,
        decreases v.len() - i,
    {
        if str_eq(v[i].as_str(), s) {
            proof {
                assert(strs_view(v@)[i as int] == s@);
            }
            return true;
        }
        i = i + 1;
    }
    proof {
        if strs_view(v@).contains(s@) {
            let k = choose|k: int| 0 <= k < strs_view(v@).len() && strs_view(v@)[k] == s@;
            assert(v@[k]@ == s@);
        }
    }
    false
}

/// The distinct strings of `v`, in the order they first occur.
pub fn distinct_strings(v: &Vec<String>) -> (r: Vec<String>)
    ensures
        strs_view(r@).no_duplicates(),
        forall|x: Seq<char>| strs_view(r@).contains(x) == strs_view(v@).contains(x),
{
    let mut r: Vec<String> = Vec::new();
    let mut i: usize = 0;
    while i < v.len()
        invariant
            i <= v@.len(),
            strs_view(r@).no_duplicates(),
            forall|x: Seq<char>| strs_view(r@).contains(x) == strs_view(v@.take(i as int)).contains(x),
        decreases v.len() - i,
    {
        let ghost before = strs_view(r@);
        let s = v[i].as_str();
        if !contains_string(&r, s) {
            r.push(v[i].clone());
            proof {
                assert(strs_view(r@) =~= before.push(s@));
                assert forall|a: int, b: int| 0 <= a < b < strs_view(r@).len() implies strs_view(
                    r@,
                )[a] != strs_view(r@)[b] by {
                    if b == strs_view(r@).len() - 1 {
                        assert(before.contains(strs_view(r@)[a]));
                    }
                }
            }
        }
        proof {
            let t1 = strs_view(v@.take(i + 1));
            let t0 = strs_view(v@.take(i as int));
            assert(t1 =~= t0.push(s@));
            assert forall|x: Seq<char>| strs_view(r@).contains(x) == t1.contains(x) by {
                lemma_push_contains(t0, s@, x);
                lemma_push_contains(before, s@, x);
            }
        }
        i = i + 1;
    }
    proof {
        assert(v@.take(v@.len() as int) =~= v@);
    }
    r
}

} // verus!

verus! {

/// Where a hook comes from: its repository and its project.
#[derive(Debug)]
pub struct HookOrigin {
    /// The repository as named in messages (`url@rev`, `local`, `meta` or `builtin`).
    pub repo_label: String,
    /// Path to the cloned repository, for hooks of a remote repository.
    pub repo_path: Option<String>,
    /// Whether the repository is a remote one.
    pub remote: bool,
    /// The project directory relative to the workspace root (empty for the root project).
    pub project_path: String,
}

/// The extra dependencies configured for a hook.
pub open spec fn deps_of(o: HookOptions) -> Seq<Seq<char>> {
    match o.additional_dependencies {
        Some(d) => strs_view(d@),
        None => Seq::empty(),
    }
}

/// Why a hook definition cannot be used with the capabilities `s` of its
/// language, or `None` when it can.
pub open spec fn check_message(h: ManifestHook, s: LanguageSupport) -> Option<Seq<char>> {
    let deps = deps_of(h.options);
    if deps.len() > 0 && !s.install_env {
        Some(
            "Hook specified `additional_dependencies: "@ + join_seq(deps, ", "@)
                + "` but the language `"@ + h.language.name()
                + "` does not install an environment"@,
        )
    } else if deps.len() > 0 && !s.dependencies {
        Some(
            "Hook specified `additional_dependencies: "@ + join_seq(deps, ", "@)
                + "` but the language `"@ + h.language.name()
                + "` does not support installing dependencies for now"@,
        )
    } else if !s.toolchain && (h.options.language_version matches Some(v) && v@ != "default"@) {
        Some(
            "Hook specified `language_version: "@ + h.options.language_version.unwrap()@
                + "` but the language `"@ + h.language.name()
                + "` does not support toolchain installation for now"@,
        )
    } else {
        None
    }
}

/// `o` when set, else `d`.
pub open spec fn or_default<T>(o: Option<T>, d: T) -> T {
    match o {
        Some(v) => v,
        None => d,
    }
}

/// A hook ready to run.
#[derive(Debug)]
pub struct Hook {
    pub origin: HookOrigin,
    /// The index of the hook defined in the configuration file.
    pub idx: usize,
    pub id: String,
    pub name: String,
    pub entry: Entry,
    pub language: Language,
    pub alias: String,
    pub files: Option<String>,
    pub exclude: Option<String>,
    pub types: Vec<String>,
    pub types_or: Vec<String>,
    pub exclude_types: Vec<String>,
    /// Each dependency once.
    pub additional_dependencies: Vec<String>,
    pub args: Vec<String>,
    pub env: EnvMap,
    pub always_run: bool,
    pub fail_fast: bool,
    pub pass_filenames: bool,
    pub description: Option<String>,
    pub language_version: String,
    pub log_file: Option<String>,
    pub require_serial: bool,
    pub stages: Stages,
    pub verbose: bool,
    pub minimum_prek_version: Option<String>,
    pub priority: u32,
}

/// `h` is the hook built from the definition `c` found at index `idx`.
pub open spec fn built_from(c: ManifestHook, idx: usize, h: Hook) -> bool {
    let o = c.options;
    &&& h.idx == idx
    &&& h.id@ == c.id@
    &&& h.name@ == c.name@
    &&& h.entry.hook_id() == c.id@
    &&& h.entry.text() == c.entry@
    &&& h.language == c.language
    &&& h.alias@ == or_default(opt_str_view(o.alias), Seq::empty())
    &&& opt_str_view(h.files) == opt_str_view(o.files)
    &&& opt_str_view(h.exclude) == opt_str_view(o.exclude)
    &&& strs_view(h.types@) == or_default(opt_strs_view(o.types), seq!["file"@])
    &&& strs_view(h.types_or@) == or_default(opt_strs_view(o.types_or), Seq::empty())
    &&& strs_view(h.exclude_types@) == or_default(opt_strs_view(o.exclude_types), Seq::empty())
    &&& strs_view(h.additional_dependencies@).no_duplicates()
    &&& (forall|x: Seq<char>|
        strs_view(h.additional_dependencies@).contains(x) == deps_of(o).contains(x))
    &&& strs_view(h.args@) == or_default(opt_strs_view(o.args), Seq::empty())
    &&& h.env.wf()
    &&& h.env@ == (match o.env {
        Some(m) => m@,
        None => Map::empty(),
    })
    &&& h.always_run == or_default(o.always_run, false)
    &&& h.fail_fast == or_default(o.fail_fast, false)
    &&& h.pass_filenames == or_default(o.pass_filenames, true)
    &&& opt_str_view(h.description) == opt_str_view(o.description)
    &&& h.language_version@ == or_default(opt_str_view(o.language_version), Seq::empty())
    &&& opt_str_view(h.log_file) == opt_str_view(o.log_file)
    &&& h.require_serial == or_default(o.require_serial, false)
    &&& stages_of(
        match o.stages {
            Some(v) => Some(v@),
            None => None,
        },
        h.stages,
    )
    &&& h.verbose == or_default(o.verbose, false)
    &&& opt_str_view(h.minimum_prek_version) == opt_str_view(o.minimum_prek_version)
    &&& h.priority == or_default(o.priority, idx as u32)
}

/// `n` is the definition `o` updated by the project's entry `c`: what the entry
/// sets replaces the definition's, the id stays.
pub open spec fn updated_by(o: ManifestHook, c: RemoteHook, n: ManifestHook) -> bool {
    &&& n.id@ == o.id@
    &&& n.name@ == (match c.name {
        Some(x) => x@,
        None => o.name@,
    })
    &&& n.entry@ == (match c.entry {
        Some(e) => e@,
        None => o.entry@,
    })
    &&& n.language == or_default(c.language, o.language)
    &&& HookOptions::overridden(&o.options, &c.options, &n.options)
}

/// `n` is the definition `o` with the configuration's defaults: its default
/// language version and stages fill what `o` leaves unset; nothing else changes.
pub open spec fn combined_with(o: ManifestHook, config: Config, n: ManifestHook) -> bool {
    let oo = o.options;
    let no = n.options;
    &&& n.id@ == o.id@
    &&& n.name@ == o.name@
    &&& n.entry@ == o.entry@
    &&& n.language == o.language
    &&& opt_str_view(no.language_version) == (if oo.language_version is Some {
        opt_str_view(oo.language_version)
    } else {
        match config.default_language_version {
            Some(m) => m.lookup(o.language),
            None => None,
        }
    })
    &&& opt_stages_view(no.stages) == (if oo.stages is Some {
        opt_stages_view(oo.stages)
    } else {
        opt_stages_view(config.default_stages)
    })
    &&& (HookOptions { language_version: None, stages: None, ..no }).same_as(
        &HookOptions { language_version: None, stages: None, ..oo },
    )
    &&& no.wf() == oo.wf()
}

/// Builds a hook from its definition, in three layers: the repository's
/// definition, the project's overrides, and the configuration's defaults.
#[derive(Debug)]
pub struct HookBuilder {
    origin: HookOrigin,
    config: ManifestHook,
    /// The index of the hook in the project configuration.
    idx: usize,
}

impl HookBuilder {
    pub closed spec fn definition(&self) -> ManifestHook {
        self.config
    }

    pub closed spec fn index(&self) -> usize {
        self.idx
    }

    /// Where the hook comes from: its repository and its project.
    pub closed spec fn origin(&self) -> HookOrigin {
        self.origin
    }

    pub open spec fn wf(&self) -> bool {
        self.definition().wf()
    }

    pub fn new(origin: HookOrigin, config: ManifestHook, idx: usize) -> (b: Self)
        ensures
            b.definition() == config,
            b.index() == idx,
            b.origin() == origin,
    {
        Self { origin, config, idx }
    }

    /// Update the hook from the project level hook configuration.
    pub fn update(&mut self, config: &RemoteHook)
        requires
            old(self).wf(),
            config.wf(),
        ensures
            final(self).wf(),
            final(self).index() == old(self).index(),
            final(self).origin() == old(self).origin(),
            updated_by(old(self).definition(), *config, final(self).definition()),
    {
        if let Some(name) = &config.name {
            self.config.name = name.clone();
        }
        if let Some(entry) = &config.entry {
            self.config.entry = entry.clone();
        }
        if let Some(language) = config.language {
            self.config.language = language;
        }
        self.config.options.update(&config.options);
    }

    /// Combine the hook configuration with the project level configuration:
    /// the configuration's default language version and stages fill what the
    /// hook leaves unset.
    pub fn combine(&mut self, config: &Config)
        ensures
            final(self).index() == old(self).index(),
            final(self).origin() == old(self).origin(),
            combined_with(old(self).definition(), *config, final(self).definition()),
    {
        let language = self.config.language;
        if self.config.options.language_version.is_none() {
            self.config.options.language_version = match &config.default_language_version {
                Some(m) => m.get(language),
                None => None,
            };
        }
        if self.config.options.stages.is_none() {
            self.config.options.stages = clone_opt_stages(&config.default_stages);
        }
    }

    /// Check the hook configuration against what its language supports.
    pub fn check(&self, support: LanguageSupport) -> (r: Result<(), HookError>)
        ensures
            match check_message(self.definition(), support) {
                None => r is Ok,
                Some(m) => r matches Err(HookError::Hook { hook, message }) && hook@
                    == self.definition().id@ && message@ == m,
            },
    {
        let language = self.config.language;
        let empty: Vec<String> = Vec::new();
        let deps = match &self.config.options.additional_dependencies {
            Some(d) => d,
            None => &empty,
        };
        proof {
            assert(strs_view(empty@) =~= Seq::<Seq<char>>::empty());
        }
        if deps.len() > 0 {
            if !support.install_env {
                let mut v: Vec<char> = Vec::new();
                push_str(&mut v, "Hook specified `additional_dependencies: ");
                push_str(&mut v, join(deps, ", ").as_str());
                push_str(&mut v, "` but the language `");
                push_str(&mut v, language.as_str());
                push_str(&mut v, "` does not install an environment");
                return Err(
                    HookError::Hook { hook: self.config.id.clone(), message: string_of(v.as_slice()) },
                );
            }
            if !support.dependencies {
                let mut v: Vec<char> = Vec::new();
                push_str(&mut v, "Hook specified `additional_dependencies: ");
                push_str(&mut v, join(deps, ", ").as_str());
                push_str(&mut v, "` but the language `");
                push_str(&mut v, language.as_str());
                push_str(&mut v, "` does not support installing dependencies for now");
                return Err(
                    HookError::Hook { hook: self.config.id.clone(), message: string_of(v.as_slice()) },
                );
            }
        }
        if !support.toolchain {
            if let Some(language_version) = &self.config.options.language_version {
                if !str_eq(language_version.as_str(), "default") {
                    let mut v: Vec<char> = Vec::new();
                    push_str(&mut v, "Hook specified `language_version: ");
                    push_str(&mut v, language_version.as_str());
                    push_str(&mut v, "` but the language `");
                    push_str(&mut v, language.as_str());
                    push_str(&mut v, "` does not support toolchain installation for now");
                    return Err(
                        HookError::Hook {
                            hook: self.config.id.clone(),
                            message: string_of(v.as_slice()),
                        },
                    );
                }
            }
        }
        Ok(())
    }

    /// Build the hook: check it, then fill every option it leaves unset with
    /// the built-in default (its index is its default priority).
    pub fn build(self, support: LanguageSupport) -> (r: Result<Hook, HookError>)
        requires
            self.wf(),
            self.index() <= u32::MAX,
        ensures
            match check_message(self.definition(), support) {
                Some(m) => r matches Err(HookError::Hook { hook, message }) && hook@
                    == self.definition().id@ && message@ == m,
                None => r matches Ok(h) && built_from(self.definition(), self.index(), h) && h.origin
                    == self.origin(),
            },
    {
        self.check(support)?;
        let ghost def = self.config;
        let HookBuilder { origin, config, idx } = self;
        let ManifestHook { id, name, entry, language, options } = config;
        let ghost o = options;
        let HookOptions {
            alias,
            files,
            exclude,
            types,
            types_or,
            exclude_types,
            additional_dependencies,
            args,
            env,
            always_run,
            fail_fast,
            pass_filenames,
            description,
            language_version,
            log_file,
            require_serial,
            priority,
            stages,
            verbose,
            minimum_prek_version,
            unused_keys: _,
        } = options;
        let deps = match additional_dependencies {
            Some(d) => distinct_strings(&d),
            None => {
                let d: Vec<String> = Vec::new();
                proof {
                    assert(strs_view(d@) =~= Seq::<Seq<char>>::empty());
                }
                d
            },
        };
        let types = match types {
            Some(t) => t,
            None => {
                let mut t: Vec<String> = Vec::new();
                t.push("file".to_owned());
                proof {
                    assert(strs_view(t@) =~= seq!["file"@]);
                }
                t
            },
        };
        let entry_id = id.clone();
        let hook = Hook {
            origin,
            idx,
            id,
            name,
            entry: Entry::new(entry_id, entry),
            language,
            alias: match alias {
                Some(a) => a,
                None => String::new(),
            },
            files,
            exclude,
            types,
            types_or: match types_or {
                Some(t) => t,
                None => Vec::new(),
            },
            exclude_types: match exclude_types {
                Some(t) => t,
                None => Vec::new(),
            },
            additional_dependencies: deps,
            args: match args {
                Some(a) => a,
                None => Vec::new(),
            },
            env: match env {
                Some(m) => m,
                None => EnvMap::new(),
            },
            always_run: match always_run {
                Some(b) => b,
                None => false,
            },
            fail_fast: match fail_fast {
                Some(b) => b,
                None => false,
            },
            pass_filenames: match pass_filenames {
                Some(b) => b,
                None => true,
            },
            description,
            language_version: match language_version {
                Some(v) => v,
                None => String::new(),
            },
            log_file,
            require_serial: match require_serial {
                Some(b) => b,
                None => false,
            },
            stages: resolve_stages(stages),
            verbose: match verbose {
                Some(b) => b,
                None => false,
            },
            minimum_prek_version,
            priority: match priority {
                Some(p) => p,
                None => idx as u32,
            },
        };
        proof {
            assert(strs_view(hook.types@) == or_default(opt_strs_view(o.types), seq!["file"@]));
            assert(strs_view(hook.types_or@) == or_default(opt_strs_view(o.types_or), Seq::empty()));
            assert(hook.idx == idx);
            assert(hook.id@ == def.id@);
            assert(hook.name@ == def.name@);
            assert(hook.entry.hook_id() == def.id@);
            assert(hook.entry.text() == def.entry@);
            assert(hook.language == def.language);
            assert(hook.alias@ == or_default(opt_str_view(o.alias), Seq::empty()));
            assert(opt_str_view(hook.files) == opt_str_view(o.files));
            assert(opt_str_view(hook.exclude) == opt_str_view(o.exclude));
            assert(strs_view(hook.types@) == or_default(opt_strs_view(o.types), seq!["file"@]));
            assert(strs_view(hook.types_or@) == or_default(opt_strs_view(o.types_or), Seq::empty()));
            assert(strs_view(hook.exclude_types@) == or_default(opt_strs_view(o.exclude_types), Seq::empty()));
            assert(strs_view(hook.additional_dependencies@).no_duplicates());
            assert(strs_view(hook.args@) == or_default(opt_strs_view(o.args), Seq::empty()));
            assert(hook.env.wf());
            assert(hook.always_run == or_default(o.always_run, false));
            assert(hook.fail_fast == or_default(o.fail_fast, false));
            assert(hook.pass_filenames == or_default(o.pass_filenames, true));
            assert(opt_str_view(hook.description) == opt_str_view(o.description));
            assert(hook.language_version@ == or_default(opt_str_view(o.language_version), Seq::empty()));
            assert(opt_str_view(hook.log_file) == opt_str_view(o.log_file));
            assert(hook.require_serial == or_default(o.require_serial, false));
            assert(hook.verbose == or_default(o.verbose, false));
            assert(opt_str_view(hook.minimum_prek_version) == opt_str_view(o.minimum_prek_version));
            assert(hook.priority == or_default(o.priority, idx as u32));
        }
        Ok(hook)
    }
}

} // verus!

verus! {

/// `deps` with `extra` added, each once.
pub open spec fn with_dependency(deps: Seq<Seq<char>>, extra: Seq<char>, r: Seq<Seq<char>>) -> bool {
    &&& r.no_duplicates()
    &&& forall|x: Seq<char>| r.contains(x) == (deps.contains(x) || x == extra)
}

fn add_distinct(deps: &Vec<String>, extra: &str) -> (r: Vec<String>)
    requires
        strs_view(deps@).no_duplicates(),
    ensures
        with_dependency(strs_view(deps@), extra@, strs_view(r@)),
{
    let mut r = clone_strings(deps);
    if !contains_string(&r, extra) {
        let ghost before = strs_view(r@);
        r.push(extra.to_owned());
        proof {
            assert(strs_view(r@) =~= before.push(extra@));
            assert forall|a: int, b: int| 0 <= a < b < strs_view(r@).len() implies strs_view(
                r@,
            )[a] != strs_view(r@)[b] by {
                if b == strs_view(r@).len() - 1 {
                    assert(before.contains(strs_view(r@)[a]));
                }
            }
            assert forall|x: Seq<char>| strs_view(r@).contains(x) == (strs_view(deps@).contains(x)
                || x == extra@) by {
                lemma_push_contains(before, extra@, x);
            }
        }
    }
    r
}

impl Hook {
    /// The id qualified by the project: `.:id` for the root project, `path:id` otherwise.
    pub open spec fn qualified_id(&self) -> Seq<char> {
        if self.origin.project_path@.len() == 0 {
            ".:"@ + self.id@
        } else {
            self.origin.project_path@ + ":"@ + self.id@
        }
    }

    pub fn full_id(&self) -> (s: String)
        ensures
            s@ == self.qualified_id(),
    {
        if self.origin.project_path.as_str().is_empty() {
            concat2(".:", self.id.as_str())
        } else {
            concat3(self.origin.project_path.as_str(), ":", self.id.as_str())
        }
    }

    pub fn is_remote(&self) -> (b: bool)
        ensures
            b == self.origin.remote,
    {
        self.origin.remote
    }

    /// Get the path to the repository that contains the hook.
    pub fn repo_path(&self) -> (r: Option<&str>)
        ensures
            opt_str_view(self.origin.repo_path) == (match r {
                Some(p) => Some(p@),
                None => None,
            }),
    {
        match &self.origin.repo_path {
            Some(p) => Some(p.as_str()),
            None => None,
        }
    }

    /// Get the path where the hook should be executed, relative to the workspace root.
    pub fn work_dir(&self) -> (s: &str)
        ensures
            s@ == self.origin.project_path@,
    {
        self.origin.project_path.as_str()
    }

    /// Dependencies used to identify whether an existing hook environment can be
    /// reused: for a remote hook, the repository itself is one of them.
    pub fn env_key_dependencies(&self) -> (r: Vec<String>)
        requires
            strs_view(self.additional_dependencies@).no_duplicates(),
        ensures
            if self.origin.remote {
                with_dependency(
                    strs_view(self.additional_dependencies@),
                    self.origin.repo_label@,
                    strs_view(r@),
                )
            } else {
                r@ == self.additional_dependencies@
            },
    {
        if !self.origin.remote {
            return clone_strings(&self.additional_dependencies);
        }
        add_distinct(&self.additional_dependencies, self.origin.repo_label.as_str())
    }

    /// Dependencies to pass to language dependency installers: for a hook of a
    /// cloned repository, the path of the clone is one of them.
    pub fn install_dependencies(&self) -> (r: Vec<String>)
        requires
            strs_view(self.additional_dependencies@).no_duplicates(),
        ensures
            match self.origin.repo_path {
                Some(p) => with_dependency(
                    strs_view(self.additional_dependencies@),
                    p@,
                    strs_view(r@),
                ),
                None => r@ == self.additional_dependencies@,
            },
    {
        match &self.origin.repo_path {
            Some(p) => add_distinct(&self.additional_dependencies, p.as_str()),
            None => clone_strings(&self.additional_dependencies),
        }
    }
}

} // verus!
