//! Hook options shared by manifest, local and remote hook definitions, and the
//! rule by which a project-level definition overrides a repository-level one.
use vstd::prelude::*;

use crate::config::Stage;
use crate::text::{
    clone_opt_string, clone_opt_strings, clone_strings, opt_str_view, opt_strs_view, str_eq, strs_view,
};

verus! {

/// The key-value pairs of a list of entries, later entries winning.
pub open spec fn entries_map(s: Seq<(String, String)>) -> Map<Seq<char>, Seq<char>>
    decreases s.len(),
{
    if s.len() == 0 {
        Map::empty()
    } else {
        entries_map(s.drop_last()).insert(s.last().0@, s.last().1@)
    }
}

/// No key occurs twice.
pub open spec fn keys_unique(s: Seq<(String, String)>) -> bool {
    forall|i: int, j: int| 0 <= i < j < s.len() ==> s[i].0@ != s[j].0@
}

proof fn lemma_entries_map_dom(s: Seq<(String, String)>, k: Seq<char>)
    ensures
        entries_map(s).dom().contains(k) <==> exists|i: int| 0 <= i < s.len() && s[i].0@ == k,
    decreases s.len(),
{
    if s.len() > 0 {
        lemma_entries_map_dom(s.drop_last(), k);
        if entries_map(s).dom().contains(k) && k != s.last().0@ {
            let i = choose|i: int| 0 <= i < s.drop_last().len() && s.drop_last()[i].0@ == k;
            assert(s[i].0@ == k);
        }
        if exists|i: int| 0 <= i < s.len() && s[i].0@ == k {
            let i = choose|i: int| 0 <= i < s.len() && s[i].0@ == k;
            if i < s.len() - 1 {
                assert(s.drop_last()[i].0@ == k);
            }
        }
    }
}

proof fn lemma_entries_map_value(s: Seq<(String, String)>, i: int)
    requires
        keys_unique(s),
        0 <= i < s.len(),
    ensures
        entries_map(s).dom().contains(s[i].0@),
        entries_map(s)[s[i].0@] == s[i].1@,
    decreases s.len(),
{
    lemma_entries_map_dom(s, s[i].0@);
    if i < s.len() - 1 {
        let t = s.drop_last();
        assert(keys_unique(t));
        assert(t[i] == s[i]);
        lemma_entries_map_value(t, i);
        assert(s.last().0@ != s[i].0@);
    }
}

/// Environment variables given to a hook: names mapped to values.
#[derive(Debug)]
pub struct EnvMap {
    entries: Vec<(String, String)>,
}

impl View for EnvMap {
    type V = Map<Seq<char>, Seq<char>>;

    closed spec fn view(&self) -> Map<Seq<char>, Seq<char>> {
        entries_map(self.entries@)
    }
}

impl EnvMap {
    /// The entries hold each name at most once.
    pub closed spec fn wf(&self) -> bool {
        keys_unique(self.entries@)
    }

    pub fn new() -> (m: EnvMap)
        ensures
            m.wf(),
            m@ == Map::<Seq<char>, Seq<char>>::empty(),
    {
        EnvMap { entries: Vec::new() }
    }

    pub fn len(&self) -> (n: usize)
        requires
            self.wf(),
        ensures
            n == self@.dom().len(),
    {
        proof {
            self.lemma_dom_len();
        }
        self.entries.len()
    }

    proof fn lemma_dom_len(&self)
        requires
            self.wf(),
        ensures
            self@.dom().finite(),
            self@.dom().len() == self.entries@.len(),
        decreases self.entries@.len(),
    {
        lemma_dom_len_seq(self.entries@);
    }

    /// The position of `key`, if present.
    fn find(&self, key: &str) -> (r: Option<usize>)
        ensures
            match r {
                Some(i) => i < self.entries@.len() && self.entries@[i as int].0@ == key@,
                None => forall|i: int|
                    0 <= i < self.entries@.len() ==> self.entries@[i].0@ != key@,
            },
    {
        let mut i: usize = 0;
        while i < self.entries.len()
            invariant
                i <= self.entries@.len(),
                forall|j: int| 0 <= j < i ==> self.entries@[j].0@ != key@,
            decreases self.entries.len() - i,
        {
            if str_eq(self.entries[i].0.as_str(), key) {
                return Some(i);
            }
            i = i + 1;
        }
        None
    }

    /// The value of `key`.
    pub fn get(&self, key: &str) -> (r: Option<String>)
        requires
            self.wf(),
        ensures
            match r {
                Some(v) => self@.dom().contains(key@) && self@[key@] == v@,
                None => !self@.dom().contains(key@),
            },
    {
        proof {
            lemma_entries_map_dom(self.entries@, key@);
        }
        match self.find(key) {
            Some(i) => {
                proof {
                    lemma_entries_map_value(self.entries@, i as int);
                }
                Some(self.entries[i].1.clone())
            },
            None => None,
        }
    }

    /// Sets `key` to `value`, replacing an earlier value.
    pub fn insert(&mut self, key: String, value: String)
        requires
            old(self).wf(),
        ensures
            final(self).wf(),
            final(self)@ == old(self)@.insert(key@, value@),
    {
        let ghost k = key@;
        let ghost v = value@;
        let ghost s = self.entries@;
        match self.find(key.as_str()) {
            Some(i) => {
                self.entries.set(i, (key, value));
                proof {
                    let t = self.entries@;
                    assert(keys_unique(t)) by {
                        assert forall|a: int, b: int| 0 <= a < b < t.len() implies t[a].0@
                            != t[b].0@ by {
                            assert(t[a].0@ == s[a].0@);
                            assert(t[b].0@ == s[b].0@);
                        }
                    }
                    assert forall|x: Seq<char>| #[trigger]
                        entries_map(t).dom().contains(x) == entries_map(s).insert(
                            k,
                            v,
                        ).dom().contains(x) by {
                        lemma_entries_map_dom(t, x);
                        lemma_entries_map_dom(s, x);
                        if exists|j: int| 0 <= j < s.len() && s[j].0@ == x {
                            let j = choose|j: int| 0 <= j < s.len() && s[j].0@ == x;
                            assert(t[j].0@ == x);
                        }
                        if exists|j: int| 0 <= j < t.len() && t[j].0@ == x {
                            let j = choose|j: int| 0 <= j < t.len() && t[j].0@ == x;
                            assert(s[j].0@ == x);
                        }
                    }
                    assert forall|x: Seq<char>| #[trigger]
                        entries_map(t).dom().contains(x) implies entries_map(t)[x] == entries_map(
                        s,
                    ).insert(k, v)[x] by {
                        lemma_entries_map_dom(t, x);
                        let j = choose|j: int| 0 <= j < t.len() && t[j].0@ == x;
                        lemma_entries_map_value(t, j);
                        if j != i {
                            assert(t[j] == s[j]);
                            lemma_entries_map_value(s, j);
                        }
                    }
                    assert(entries_map(t) =~= entries_map(s).insert(k, v));
                }
            },
            None => {
                self.entries.push((key, value));
                proof {
                    let t = self.entries@;
                    assert(t.drop_last() =~= s);
                    assert(keys_unique(t));
                }
            },
        }
    }

    /// Sets every variable of `other`, keeping the others (`HashMap::extend`).
    pub fn extend(&mut self, other: &EnvMap)
        requires
            old(self).wf(),
            other.wf(),
        ensures
            final(self).wf(),
            final(self)@ == old(self)@.union_prefer_right(other@),
    {
        let ghost start = self@;
        let mut i: usize = 0;
        while i < other.entries.len()
            invariant
                self.wf(),
                i <= other.entries@.len(),
                self@ == start.union_prefer_right(entries_map(other.entries@.take(i as int))),
            decreases other.entries.len() - i,
        {
            let k = other.entries[i].0.clone();
            let v = other.entries[i].1.clone();
            let ghost before = entries_map(other.entries@.take(i as int));
            self.insert(k, v);
            proof {
                let tk = other.entries@.take(i + 1);
                assert(tk.drop_last() =~= other.entries@.take(i as int));
                assert(entries_map(tk) == before.insert(
                    other.entries@[i as int].0@,
                    other.entries@[i as int].1@,
                ));
                assert(self@ =~= start.union_prefer_right(entries_map(tk)));
            }
            i = i + 1;
        }
        proof {
            assert(other.entries@.take(other.entries@.len() as int) =~= other.entries@);
        }
    }

    /// A copy with the same variables.
    pub fn duplicate(&self) -> (r: EnvMap)
        requires
            self.wf(),
        ensures
            r.wf(),
            r@ == self@,
    {
        let mut entries: Vec<(String, String)> = Vec::new();
        let mut i: usize = 0;
        while i < self.entries.len()
            invariant
                i <= self.entries@.len(),
                entries@ == self.entries@.take(i as int),
            decreases self.entries.len() - i,
        {
            let k = self.entries[i].0.clone();
            let v = self.entries[i].1.clone();
            entries.push((k, v));
            proof {
                assert(entries@ =~= self.entries@.take(i + 1));
            }
            i = i + 1;
        }
        proof {
            assert(entries@ =~= self.entries@);
        }
        EnvMap { entries }
    }

    /// The variables as name-value pairs, in the order they were first set.
    pub fn pairs(&self) -> (r: Vec<(String, String)>)
        requires
            self.wf(),
        ensures
            r@.len() == self@.dom().len(),
            forall|i: int|
                0 <= i < r@.len() ==> self@.dom().contains(#[trigger] r@[i].0@) && self@[r@[i].0@]
                    == r@[i].1@,
            forall|k: Seq<char>| #[trigger]
                self@.dom().contains(k) ==> exists|i: int| 0 <= i < r@.len() && r@[i].0@ == k,
    {
        let r = self.duplicate();
        proof {
            self.lemma_dom_len();
            assert forall|i: int| 0 <= i < r.entries@.len() implies self@.dom().contains(
                #[trigger] r.entries@[i].0@,
            ) && self@[r.entries@[i].0@] == r.entries@[i].1@ by {
                lemma_entries_map_value(r.entries@, i);
            }
            assert forall|k: Seq<char>| #[trigger] self@.dom().contains(k) implies exists|i: int|
                0 <= i < r.entries@.len() && r.entries@[i].0@ == k by {
                lemma_entries_map_dom(r.entries@, k);
            }
            r.lemma_dom_len();
        }
        r.entries
    }
}

proof fn lemma_dom_len_seq(s: Seq<(String, String)>)
    requires
        keys_unique(s),
    ensures
        entries_map(s).dom().finite(),
        entries_map(s).dom().len() == s.len(),
    decreases s.len(),
{
    if s.len() > 0 {
        let t = s.drop_last();
        assert(keys_unique(t));
        lemma_dom_len_seq(t);
        lemma_entries_map_dom(t, s.last().0@);
        if entries_map(t).dom().contains(s.last().0@) {
            let j = choose|j: int| 0 <= j < t.len() && t[j].0@ == s.last().0@;
            assert(s[j].0@ == s.last().0@);
        }
    }
}

/// Merging the same variables twice changes nothing more than merging them once.
pub proof fn env_extend_idempotent(base: Map<Seq<char>, Seq<char>>, other: Map<Seq<char>, Seq<char>>)
    ensures
        base.union_prefer_right(other).union_prefer_right(other) == base.union_prefer_right(other),
{
    assert(base.union_prefer_right(other).union_prefer_right(other) =~= base.union_prefer_right(
        other,
    ));
}

} // verus!

verus! {

/// `other` when it is set, else `base`.
pub open spec fn pick<T>(base: Option<T>, other: Option<T>) -> Option<T> {
    if other is Some {
        other
    } else {
        base
    }
}

/// The variables of an optional map.
pub open spec fn opt_env_view(o: Option<EnvMap>) -> Option<Map<Seq<char>, Seq<char>>> {
    match o {
        Some(m) => Some(m@),
        None => None,
    }
}

/// Variables of `other` merged over those of `base`.
pub open spec fn merge_env(
    base: Option<Map<Seq<char>, Seq<char>>>,
    other: Option<Map<Seq<char>, Seq<char>>>,
) -> Option<Map<Seq<char>, Seq<char>>> {
    match other {
        Some(o) => match base {
            Some(b) => Some(b.union_prefer_right(o)),
            None => Some(o),
        },
        None => base,
    }
}

/// The stages of an optional list.
pub open spec fn opt_stages_view(o: Option<Vec<Stage>>) -> Option<Seq<Stage>> {
    match o {
        Some(v) => Some(v@),
        None => None,
    }
}

/// Common hook options. Every option is optional: an unset option takes its
/// value from a lower level (the repository manifest, the project defaults or
/// the built-in default).
#[derive(Debug)]
pub struct HookOptions {
    /// Not documented in the official docs.
    pub alias: Option<String>,
    /// The pattern of files to run on (a regular expression).
    pub files: Option<String>,
    /// Exclude files that were matched by `files` (a regular expression).
    pub exclude: Option<String>,
    /// List of file types to run on (AND).
    pub types: Option<Vec<String>>,
    /// List of file types to run on (OR).
    pub types_or: Option<Vec<String>>,
    /// List of file types to exclude.
    pub exclude_types: Option<Vec<String>>,
    pub additional_dependencies: Option<Vec<String>>,
    /// Additional arguments to pass to the hook.
    pub args: Option<Vec<String>>,
    /// Environment variables to set for the hook.
    pub env: Option<EnvMap>,
    /// This hook will run even if there are no matching files.
    pub always_run: Option<bool>,
    /// If this hook fails, don't run any more hooks.
    pub fail_fast: Option<bool>,
    /// Append filenames that would be checked to the hook entry as arguments.
    pub pass_filenames: Option<bool>,
    /// A description of the hook. For metadata only.
    pub description: Option<String>,
    /// Run the hook on a specific version of the language.
    pub language_version: Option<String>,
    /// Write the output of the hook to a file when the hook fails or verbose is enabled.
    pub log_file: Option<String>,
    /// This hook will execute using a single process instead of in parallel.
    pub require_serial: Option<bool>,
    /// Priority used by the scheduler to determine ordering and concurrency.
    pub priority: Option<u32>,
    /// Select which git hook(s) to run for.
    pub stages: Option<Vec<Stage>>,
    /// Print the output of the hook even if it passes.
    pub verbose: Option<bool>,
    /// The minimum version of prek required to run this hook.
    pub minimum_prek_version: Option<String>,
    /// Keys of the hook definition that prek does not know, in sorted order.
    pub unused_keys: Vec<String>,
}

impl HookOptions {
    /// The environment map, when set, is well formed.
    pub open spec fn wf(&self) -> bool {
        match self.env {
            Some(m) => m.wf(),
            None => true,
        }
    }

    /// No option is set.
    pub open spec fn all_unset(&self) -> bool {
        &&& self.alias is None
        &&& self.files is None
        &&& self.exclude is None
        &&& self.types is None
        &&& self.types_or is None
        &&& self.exclude_types is None
        &&& self.additional_dependencies is None
        &&& self.args is None
        &&& self.env is None
        &&& self.always_run is None
        &&& self.fail_fast is None
        &&& self.pass_filenames is None
        &&& self.description is None
        &&& self.language_version is None
        &&& self.log_file is None
        &&& self.require_serial is None
        &&& self.priority is None
        &&& self.stages is None
        &&& self.verbose is None
        &&& self.minimum_prek_version is None
    }

    /// Both hold the same options (and the same unknown keys).
    pub open spec fn same_as(&self, o: &HookOptions) -> bool {
        &&& opt_str_view(self.alias) == opt_str_view(o.alias)
        &&& opt_str_view(self.files) == opt_str_view(o.files)
        &&& opt_str_view(self.exclude) == opt_str_view(o.exclude)
        &&& opt_strs_view(self.types) == opt_strs_view(o.types)
        &&& opt_strs_view(self.types_or) == opt_strs_view(o.types_or)
        &&& opt_strs_view(self.exclude_types) == opt_strs_view(o.exclude_types)
        &&& opt_strs_view(self.additional_dependencies) == opt_strs_view(o.additional_dependencies)
        &&& opt_strs_view(self.args) == opt_strs_view(o.args)
        &&& opt_env_view(self.env) == opt_env_view(o.env)
        &&& self.always_run == o.always_run
        &&& self.fail_fast == o.fail_fast
        &&& self.pass_filenames == o.pass_filenames
        &&& opt_str_view(self.description) == opt_str_view(o.description)
        &&& opt_str_view(self.language_version) == opt_str_view(o.language_version)
        &&& opt_str_view(self.log_file) == opt_str_view(o.log_file)
        &&& self.require_serial == o.require_serial
        &&& self.priority == o.priority
        &&& opt_stages_view(self.stages) == opt_stages_view(o.stages)
        &&& self.verbose == o.verbose
        &&& opt_str_view(self.minimum_prek_version) == opt_str_view(o.minimum_prek_version)
        &&& strs_view(self.unused_keys@) == strs_view(o.unused_keys@)
    }

    /// `new` is `base` with every option that `other` sets taken from `other`;
    /// environment variables are merged, those of `other` winning.
    pub open spec fn overridden(base: &HookOptions, other: &HookOptions, new: &HookOptions) -> bool {
        &&& opt_str_view(new.alias) == pick(opt_str_view(base.alias), opt_str_view(other.alias))
        &&& opt_str_view(new.files) == pick(opt_str_view(base.files), opt_str_view(other.files))
        &&& opt_str_view(new.exclude) == pick(
            opt_str_view(base.exclude),
            opt_str_view(other.exclude),
        )
        &&& opt_strs_view(new.types) == pick(opt_strs_view(base.types), opt_strs_view(other.types))
        &&& opt_strs_view(new.types_or) == pick(
            opt_strs_view(base.types_or),
            opt_strs_view(other.types_or),
        )
        &&& opt_strs_view(new.exclude_types) == pick(
            opt_strs_view(base.exclude_types),
            opt_strs_view(other.exclude_types),
        )
        &&& opt_strs_view(new.additional_dependencies) == pick(
            opt_strs_view(base.additional_dependencies),
            opt_strs_view(other.additional_dependencies),
        )
        &&& opt_strs_view(new.args) == pick(opt_strs_view(base.args), opt_strs_view(other.args))
        &&& opt_env_view(new.env) == merge_env(opt_env_view(base.env), opt_env_view(other.env))
        &&& new.always_run == pick(base.always_run, other.always_run)
        &&& new.fail_fast == pick(base.fail_fast, other.fail_fast)
        &&& new.pass_filenames == pick(base.pass_filenames, other.pass_filenames)
        &&& opt_str_view(new.description) == pick(
            opt_str_view(base.description),
            opt_str_view(other.description),
        )
        &&& opt_str_view(new.language_version) == pick(
            opt_str_view(base.language_version),
            opt_str_view(other.language_version),
        )
        &&& opt_str_view(new.log_file) == pick(
            opt_str_view(base.log_file),
            opt_str_view(other.log_file),
        )
        &&& new.require_serial == pick(base.require_serial, other.require_serial)
        &&& new.priority == pick(base.priority, other.priority)
        &&& opt_stages_view(new.stages) == pick(
            opt_stages_view(base.stages),
            opt_stages_view(other.stages),
        )
        &&& new.verbose == pick(base.verbose, other.verbose)
        &&& opt_str_view(new.minimum_prek_version) == pick(
            opt_str_view(base.minimum_prek_version),
            opt_str_view(other.minimum_prek_version),
        )
        &&& strs_view(new.unused_keys@) == strs_view(base.unused_keys@)
    }

    /// Override the options set in `other`, merging environment variables.
    pub fn update(&mut self, other: &Self)
        requires
            old(self).wf(),
            other.wf(),
        ensures
            final(self).wf(),
            HookOptions::overridden(old(self), other, final(self)),
    {
        override_string(&mut self.alias, &other.alias);
        override_string(&mut self.files, &other.files);
        override_string(&mut self.exclude, &other.exclude);
        override_strings(&mut self.types, &other.types);
        override_strings(&mut self.types_or, &other.types_or);
        override_strings(&mut self.exclude_types, &other.exclude_types);
        override_strings(&mut self.additional_dependencies, &other.additional_dependencies);
        override_strings(&mut self.args, &other.args);
        override_flag(&mut self.always_run, other.always_run);
        override_flag(&mut self.fail_fast, other.fail_fast);
        override_flag(&mut self.pass_filenames, other.pass_filenames);
        override_string(&mut self.description, &other.description);
        override_string(&mut self.language_version, &other.language_version);
        override_string(&mut self.log_file, &other.log_file);
        override_flag(&mut self.require_serial, other.require_serial);
        if other.priority.is_some() {
            self.priority = other.priority;
        }
        if other.stages.is_some() {
            self.stages = clone_opt_stages(&other.stages);
        }
        override_flag(&mut self.verbose, other.verbose);
        override_string(&mut self.minimum_prek_version, &other.minimum_prek_version);
        // Merge environment variables.
        if let Some(other_env) = &other.env {
            let mut current: Option<EnvMap> = None;
            std::mem::swap(&mut current, &mut self.env);
            match current {
                Some(mut self_env) => {
                    self_env.extend(other_env);
                    self.env = Some(self_env);
                },
                None => {
                    self.env = Some(other_env.duplicate());
                },
            }
        }
    }

    /// A copy holding the same options.
    pub fn duplicate(&self) -> (r: HookOptions)
        requires
            self.wf(),
        ensures
            r.wf(),
            r.same_as(self),
    {
        HookOptions {
            alias: clone_opt_string(&self.alias),
            files: clone_opt_string(&self.files),
            exclude: clone_opt_string(&self.exclude),
            types: clone_opt_strings(&self.types),
            types_or: clone_opt_strings(&self.types_or),
            exclude_types: clone_opt_strings(&self.exclude_types),
            additional_dependencies: clone_opt_strings(&self.additional_dependencies),
            args: clone_opt_strings(&self.args),
            env: match &self.env {
                Some(m) => Some(m.duplicate()),
                None => None,
            },
            always_run: self.always_run,
            fail_fast: self.fail_fast,
            pass_filenames: self.pass_filenames,
            description: clone_opt_string(&self.description),
            language_version: clone_opt_string(&self.language_version),
            log_file: clone_opt_string(&self.log_file),
            require_serial: self.require_serial,
            priority: self.priority,
            stages: clone_opt_stages(&self.stages),
            verbose: self.verbose,
            minimum_prek_version: clone_opt_string(&self.minimum_prek_version),
            unused_keys: clone_strings(&self.unused_keys),
        }
    }
}

impl Default for HookOptions {
    fn default() -> (r: HookOptions)
        ensures
            r.all_unset(),
            r.unused_keys@.len() == 0,
            r.wf(),
    {
        HookOptions {
            alias: None,
            files: None,
            exclude: None,
            types: None,
            types_or: None,
            exclude_types: None,
            additional_dependencies: None,
            args: None,
            env: None,
            always_run: None,
            fail_fast: None,
            pass_filenames: None,
            description: None,
            language_version: None,
            log_file: None,
            require_serial: None,
            priority: None,
            stages: None,
            verbose: None,
            minimum_prek_version: None,
            unused_keys: Vec::new(),
        }
    }
}

fn override_string(base: &mut Option<String>, other: &Option<String>)
    ensures
        opt_str_view(*final(base)) == pick(opt_str_view(*old(base)), opt_str_view(*other)),
{
    if other.is_some() {
        *base = clone_opt_string(other);
    }
}

fn override_strings(base: &mut Option<Vec<String>>, other: &Option<Vec<String>>)
    ensures
        opt_strs_view(*final(base)) == pick(opt_strs_view(*old(base)), opt_strs_view(*other)),
{
    if other.is_some() {
        *base = clone_opt_strings(other);
    }
}

fn override_flag(base: &mut Option<bool>, other: Option<bool>)
    ensures
        *final(base) == pick(*old(base), other),
{
    if other.is_some() {
        *base = other;
    }
}

/// A copy of an optional list of stages.
pub fn clone_opt_stages(o: &Option<Vec<Stage>>) -> (r: Option<Vec<Stage>>)
    ensures
        opt_stages_view(r) == opt_stages_view(*o),
{
    match o {
        Some(v) => {
            let mut r: Vec<Stage> = Vec::new();
            let mut i: usize = 0;
            while i < v.len()
                invariant
                    i <= v@.len(),
                    r@ == v@.take(i as int),
                decreases v.len() - i,
            {
                r.push(v[i]);
                proof {
                    assert(r@ =~= v@.take(i + 1));
                }
                i = i + 1;
            }
            proof {
                assert(r@ =~= v@);
            }
            Some(r)
        },
        None => None,
    }
}

/// Overriding with options of which none is set leaves every option as it was.
pub proof fn options_update_with_unset_is_identity(
    base: &HookOptions,
    other: &HookOptions,
    new: &HookOptions,
)
    requires
        other.all_unset(),
        HookOptions::overridden(base, other, new),
    ensures
        new.same_as(base),
{
}

/// Overriding twice with the same options gives the same options as overriding once.
pub proof fn options_update_idempotent(
    base: &HookOptions,
    other: &HookOptions,
    once: &HookOptions,
    twice: &HookOptions,
)
    requires
        HookOptions::overridden(base, other, once),
        HookOptions::overridden(once, other, twice),
    ensures
        twice.same_as(once),
{
    match (opt_env_view(base.env), opt_env_view(other.env)) {
        (Some(b), Some(o)) => {
            env_extend_idempotent(b, o);
        },
        (None, Some(o)) => {
            assert(o.union_prefer_right(o) =~= o);
        },
        _ => {},
    }
}

/// Every option that `other` sets is the one that takes effect.
pub proof fn options_update_other_wins(base: &HookOptions, other: &HookOptions, new: &HookOptions)
    requires
        HookOptions::overridden(base, other, new),
        other.language_version is Some,
    ensures
        opt_str_view(new.language_version) == opt_str_view(other.language_version),
{
}


/// The value of the variable `k` in an optional environment.
pub open spec fn env_value(e: Option<Map<Seq<char>, Seq<char>>>, k: Seq<char>) -> Option<Seq<char>> {
    match e {
        Some(m) => if m.contains_key(k) {
            Some(m[k])
        } else {
            None
        },
        None => None,
    }
}

/// Updating options merges the environments: each variable the update sets
/// takes its value, each other variable keeps the base's value (or stays
/// unset), and there is no environment only when neither has one.
pub proof fn options_update_merges_env(base: &HookOptions, other: &HookOptions, new: &HookOptions, k: Seq<char>)
    requires
        HookOptions::overridden(base, other, new),
    ensures
        env_value(opt_env_view(other.env), k) is Some ==> env_value(opt_env_view(new.env), k) == env_value(
            opt_env_view(other.env),
            k,
        ),
        env_value(opt_env_view(other.env), k) is None ==> env_value(opt_env_view(new.env), k) == env_value(
            opt_env_view(base.env),
            k,
        ),
        new.env is None <==> (base.env is None && other.env is None),
{
}

} // verus!
