//! The hooks of a project: one builder per configured hook, in order, each
//! starting from its repository's definition.
use vstd::prelude::*;

use crate::config::{BuiltinHook, Config, ManifestHook, MetaHook, RemoteHook, Repo};
use crate::hook::{all_wf, duplicate_hooks, same_hooks, check_message, combined_with, updated_by, Hook, HookBuilder, HookError, HookOrigin, HookRepo, LanguageSupport};
use crate::text::{opt_str_view, str_eq};
use crate::workspace::WorkspaceError;

verus! {

/// The ids of the hooks a configuration lists, in order.
pub open spec fn configured_ids(repos: Seq<Repo>) -> Seq<Seq<char>>
    decreases repos.len(),
{
    if repos.len() == 0 {
        Seq::empty()
    } else {
        configured_ids(repos.drop_last()) + repo_hook_ids(repos.last())
    }
}

/// The ids of the hooks one repository entry lists.
pub open spec fn repo_hook_ids(r: Repo) -> Seq<Seq<char>> {
    match r {
        Repo::Remote(x) => x.hooks@.map_values(|h: crate::config::RemoteHook| h.id@),
        Repo::Local(x) => x.hooks@.map_values(|h: ManifestHook| h.id@),
        Repo::Meta(x) => x.hooks@.map_values(|h: crate::config::MetaHook| h.0.id@),
        Repo::Builtin(x) => x.hooks@.map_values(|h: crate::config::BuiltinHook| h.0.id@),
    }
}

/// The repository built for the entry `r` is of the same kind, and every hook
/// definition involved is well formed.
pub open spec fn repo_matches(r: Repo, h: HookRepo) -> bool {
    match r {
        Repo::Remote(x) => h is Remote && (forall|j: int| 0 <= j < x.hooks@.len() ==> (#[trigger] x.hooks@[j]).wf())
            && (forall|j: int| 0 <= j < h.hooks().len() ==> (#[trigger] h.hooks()[j]).wf()),
        Repo::Local(x) => forall|j: int| 0 <= j < x.hooks@.len() ==> (#[trigger] x.hooks@[j]).wf(),
        Repo::Meta(x) => forall|j: int| 0 <= j < x.hooks@.len() ==> (#[trigger] x.hooks@[j]).0.wf(),
        Repo::Builtin(x) => forall|j: int| 0 <= j < x.hooks@.len() ==> (#[trigger] x.hooks@[j]).0.wf(),
    }
}

/// The repository defines a hook with id `id`.
pub open spec fn defines(h: HookRepo, id: Seq<char>) -> bool {
    exists|k: int| 0 <= k < h.hooks().len() && (#[trigger] h.hooks()[k]).id@ == id
}

/// The first definition in `h` whose id is `id`.
pub open spec fn first_definition(h: HookRepo, id: Seq<char>) -> ManifestHook {
    h.hooks()[choose|w: int| is_first_with_id(h.hooks(), id, w)]
}

/// `w` is the first place in `defs` that holds a definition with id `id`.
pub open spec fn is_first_with_id(defs: Seq<ManifestHook>, id: Seq<char>, w: int) -> bool {
    &&& 0 <= w < defs.len()
    &&& defs[w].id@ == id
    &&& forall|q: int| 0 <= q < w ==> (#[trigger] defs[q]).id@ != id
}

/// Where each hook of the entry `r` starts from, with the project's entry that
/// updates it (remote hooks only): a remote hook starts from the first
/// definition of its id in `h`; any other hook from its own definition.
pub open spec fn entry_sources(r: Repo, h: HookRepo) -> Seq<(ManifestHook, Option<RemoteHook>)> {
    match r {
        Repo::Remote(x) => x.hooks@.map_values(|c: RemoteHook| (first_definition(h, c.id@), Some(c))),
        Repo::Local(x) => x.hooks@.map_values(|m: ManifestHook| (m, None::<RemoteHook>)),
        Repo::Meta(x) => x.hooks@.map_values(|m: crate::config::MetaHook| (m.0, None::<RemoteHook>)),
        Repo::Builtin(x) => x.hooks@.map_values(|m: crate::config::BuiltinHook| (m.0, None::<RemoteHook>)),
    }
}

/// The sources of the hooks of the first `n` entries, in order.
pub open spec fn hook_sources(repos: Seq<Repo>, built: Seq<HookRepo>, n: nat) -> Seq<
    (ManifestHook, Option<RemoteHook>),
>
    decreases n,
{
    if n == 0 {
        Seq::empty()
    } else {
        hook_sources(repos, built, (n - 1) as nat) + entry_sources(repos[n - 1], built[n - 1])
    }
}

/// `d` is the hook built from `src` for the configuration `config`: the
/// source definition, updated by the project's entry where there is one, then
/// given the configuration's defaults.
pub open spec fn built_as(src: (ManifestHook, Option<RemoteHook>), config: Config, d: ManifestHook) -> bool {
    match src.1 {
        Some(c) => exists|s: ManifestHook, m: ManifestHook|
            #![trigger updated_by(s, c, m), combined_with(m, config, d)]
            s.same_as(&src.0) && updated_by(s, c, m) && combined_with(m, config, d),
        None => exists|s: ManifestHook| #![trigger combined_with(s, config, d)]
            s.same_as(&src.0) && combined_with(s, config, d),
    }
}

/// The hooks of the first `n` entries belong, in order, to these entries
/// (by index).
pub open spec fn hook_places(repos: Seq<Repo>, n: nat) -> Seq<int>
    decreases n,
{
    if n == 0 {
        Seq::empty()
    } else {
        hook_places(repos, (n - 1) as nat) + Seq::new(
            repo_hook_ids(repos[n - 1]).len(),
            |x: int| n - 1,
        )
    }
}

/// The hook at place `k` of the configuration can be looked up: it is not a
/// remote hook whose repository lacks its id.
pub open spec fn slot_found(repos: Seq<Repo>, built: Seq<HookRepo>, k: int) -> bool {
    let src = hook_sources(repos, built, repos.len())[k];
    match src.1 {
        Some(c) => defines(built[hook_places(repos, repos.len())[k]], c.id@),
        None => true,
    }
}

/// Every hook before place `k` is found and passes the check of what its
/// language supports.
pub open spec fn passes_before(config: Config, built: Seq<HookRepo>, supports: Seq<LanguageSupport>, k: int) -> bool {
    let srcs = hook_sources(config.repos@, built, config.repos@.len());
    forall|j: int|
        0 <= j < k ==> slot_found(config.repos@, built, j) && exists|d: ManifestHook|
            #[trigger] built_as(srcs[j], config, d) && check_message(d, supports[j]) is None
}

/// `e` is the failure of the hook at place `k`: a remote hook its repository
/// lacks, or the message of the failed check.
pub open spec fn fails_at(
    config: Config,
    built: Seq<HookRepo>,
    supports: Seq<LanguageSupport>,
    k: int,
    e: WorkspaceError,
) -> bool {
    let srcs = hook_sources(config.repos@, built, config.repos@.len());
    let place = hook_places(config.repos@, config.repos@.len())[k];
    match e {
        WorkspaceError::HookNotFound { hook, repo } => match srcs[k].1 {
            Some(c) => hook@ == c.id@ && !defines(built[place], c.id@) && repo@ == built[place].label(),
            None => false,
        },
        WorkspaceError::Hook(HookError::Hook { hook, message }) => slot_found(config.repos@, built, k)
            && exists|d: ManifestHook|
            #[trigger] built_as(srcs[k], config, d) && d.id@ == hook@ && check_message(d, supports[k])
                == Some(message@),
        _ => false,
    }
}

/// `o` is the origin of a hook of the repository `h` in the project at
/// `project_path`.
pub open spec fn origin_for(h: HookRepo, project_path: Seq<char>, o: HookOrigin) -> bool {
    &&& o.repo_label@ == h.label()
    &&& opt_str_view(o.repo_path) == (match h {
        HookRepo::Remote { path, .. } => Some(path@),
        _ => None,
    })
    &&& o.remote == (h is Remote)
    &&& o.project_path@ == project_path
}

/// The origin of a hook of a remote repository names the repository by its
/// `url@rev` and points at its clone: what tells its environment apart.
pub proof fn remote_origin_names_revision(h: HookRepo, project_path: Seq<char>, o: HookOrigin)
    requires
        origin_for(h, project_path, o),
        h is Remote,
    ensures
        o.remote,
        o.repo_label@ == h->url@ + "@"@ + h->rev@,
        opt_str_view(o.repo_path) == Some(h->path@),
{
}

fn origin_of(repo: &HookRepo, project_path: &str) -> (o: HookOrigin)
    ensures
        origin_for(*repo, project_path@, o),
{
    HookOrigin {
        repo_label: repo.display(),
        repo_path: match repo.path() {
            Some(p) => Some(p.to_string()),
            None => None,
        },
        remote: repo.is_remote(),
        project_path: project_path.to_string(),
    }
}

/// The hooks of the first `m` entries keep their sources and places among
/// those of the first `n`.
pub open spec fn slots_extend(cr: Seq<Repo>, built: Seq<HookRepo>, m: nat, n: nat) -> bool {
    forall|k: int|
        0 <= k < hook_sources(cr, built, m).len() ==> #[trigger] hook_sources(cr, built, n)[k] === hook_sources(
            cr,
            built,
            m,
        )[k] && hook_places(cr, n)[k] == hook_places(cr, m)[k]
}

proof fn lemma_slots(cr: Seq<Repo>, built: Seq<HookRepo>, m: nat, n: nat)
    requires
        m <= n <= cr.len(),
    ensures
        hook_sources(cr, built, m).len() == configured_ids(cr.take(m as int)).len(),
        hook_places(cr, m).len() == configured_ids(cr.take(m as int)).len(),
        hook_sources(cr, built, m).len() <= hook_sources(cr, built, n).len(),
        slots_extend(cr, built, m, n),
    decreases n,
{
    if n == 0 {
        assert(cr.take(0) =~= Seq::<Repo>::empty());
        assert(hook_sources(cr, built, m).len() == 0);
        assert(forall|k: int| 0 <= k < hook_sources(cr, built, m).len() ==> hook_sources(cr, built, n)[k] === hook_sources(cr, built, m)[k] && hook_places(cr, n)[k] == hook_places(cr, m)[k]);
    } else {
        let n1 = (n - 1) as nat;
        lemma_slots(cr, built, n1, n1);
        lemma_configured_ids_prefix(cr, n as int);
        let e = entry_sources(cr[n - 1], built[n - 1]);
        let ids = repo_hook_ids(cr[n - 1]);
        assert(e.len() == ids.len());
        let s0 = hook_sources(cr, built, n1);
        let p0 = hook_places(cr, n1);
        assert(hook_sources(cr, built, n) == s0 + e);
        assert(hook_places(cr, n) == p0 + Seq::new(ids.len(), |x: int| n - 1));
        if m < n {
            lemma_slots(cr, built, m, n1);
            assert forall|k: int| 0 <= k < hook_sources(cr, built, m).len() implies hook_sources(cr, built, n)[k]
                === hook_sources(cr, built, m)[k] && hook_places(cr, n)[k] == hook_places(cr, m)[k] by {
                assert(hook_sources(cr, built, n)[k] === s0[k]);
                assert(hook_places(cr, n)[k] == p0[k]);
            }
        } else {
            assert(m == n);
            assert(forall|k: int| 0 <= k < hook_sources(cr, built, m).len() ==> hook_sources(cr, built, n)[k] === hook_sources(cr, built, m)[k] && hook_places(cr, n)[k] == hook_places(cr, m)[k]);
        }
    }
}

/// The hook at place `jj` of entry `i` is at place `jj` after the hooks of the
/// entries before it.
proof fn lemma_entry_slot(cr: Seq<Repo>, built: Seq<HookRepo>, i: int, jj: int)
    requires
        0 <= i < cr.len(),
        0 <= jj < repo_hook_ids(cr[i]).len(),
    ensures
        hook_sources(cr, built, cr.len())[configured_ids(cr.take(i)).len() + jj] === entry_sources(
            cr[i],
            built[i],
        )[jj],
        hook_places(cr, cr.len())[configured_ids(cr.take(i)).len() + jj] == i,
{
    lemma_slots(cr, built, i as nat, i as nat);
    lemma_slots(cr, built, (i + 1) as nat, cr.len());
    lemma_configured_ids_prefix(cr, i + 1);
    let e = entry_sources(cr[i], built[i]);
    let ids = repo_hook_ids(cr[i]);
    assert(e.len() == ids.len());
    let s1 = hook_sources(cr, built, (i + 1) as nat);
    let p1 = hook_places(cr, (i + 1) as nat);
    assert(s1 == hook_sources(cr, built, i as nat) + e);
    assert(p1 == hook_places(cr, i as nat) + Seq::new(ids.len(), |x: int| i));
    let b = configured_ids(cr.take(i)).len();
    assert(s1[b + jj] === e[jj]);
    assert(p1[b + jj] == i);
    assert(slots_extend(cr, built, (i + 1) as nat, cr.len()));
    assert(hook_sources(cr, built, cr.len())[b + jj] === s1[b + jj]);
}

/// The entries of the configurations, one configuration after another.
pub open spec fn config_entries(configs: Seq<Config>) -> Seq<Repo>
    decreases configs.len(),
{
    if configs.len() == 0 {
        Seq::empty()
    } else {
        config_entries(configs.drop_last()) + configs.last().repos@
    }
}

/// The `(url, rev)` of each remote entry, in order.
pub open spec fn remote_keys(entries: Seq<Repo>) -> Seq<(Seq<char>, Seq<char>)>
    decreases entries.len(),
{
    if entries.len() == 0 {
        Seq::empty()
    } else {
        let rest = remote_keys(entries.drop_last());
        match entries.last() {
            Repo::Remote(x) => rest.push((x.repo@, x.rev@)),
            _ => rest,
        }
    }
}

/// `s` with each value kept at its first occurrence only.
pub open spec fn first_occurrences<T>(s: Seq<T>) -> Seq<T>
    decreases s.len(),
{
    if s.len() == 0 {
        Seq::empty()
    } else {
        let d = first_occurrences(s.drop_last());
        if d.contains(s.last()) {
            d
        } else {
            d.push(s.last())
        }
    }
}

/// Keeping first occurrences leaves no value twice and loses none.
pub proof fn first_occurrences_distinct_and_complete<T>(s: Seq<T>)
    ensures
        first_occurrences(s).no_duplicates(),
        forall|x: T| first_occurrences(s).contains(x) <==> s.contains(x),
    decreases s.len(),
{
    if s.len() > 0 {
        let p = s.drop_last();
        first_occurrences_distinct_and_complete(p);
        let d = first_occurrences(p);
        let l = s.last();
        assert forall|x: T| first_occurrences(s).contains(x) <==> s.contains(x) by {
            if first_occurrences(s).contains(x) {
                if d.contains(x) {
                    assert(p.contains(x));
                    let w = choose|w: int| 0 <= w < p.len() && p[w] == x;
                    assert(s[w] == x);
                } else {
                    assert(!d.contains(l));
                    let w = choose|w: int| 0 <= w < d.push(l).len() && d.push(l)[w] == x;
                    if w < d.len() {
                        assert(d[w] == x);
                    }
                    assert(x == l);
                    assert(s[s.len() - 1] == x);
                }
            }
            if s.contains(x) {
                let w = choose|w: int| 0 <= w < s.len() && s[w] == x;
                if w < s.len() - 1 {
                    assert(p[w] == x);
                    assert(p.contains(x));
                    assert(d.contains(x));
                    let v = choose|v: int| 0 <= v < d.len() && d[v] == x;
                    if !d.contains(l) {
                        assert(d.push(l)[v] == x);
                    }
                } else {
                    assert(x == l);
                    if !d.contains(l) {
                        assert(d.push(l)[d.len() as int] == l);
                    }
                }
            }
        }
        if !d.contains(l) {
            let e = d.push(l);
            assert forall|i: int, j: int| 0 <= i < e.len() && 0 <= j < e.len() && i != j implies e[i] != e[j] by {
                if i < d.len() && j < d.len() {
                    assert(d[i] != d[j]);
                } else if i < d.len() {
                    assert(e[j] == l);
                    assert(e[i] == d[i]);
                } else {
                    assert(e[i] == l);
                    assert(e[j] == d[j]);
                }
            }
        }
    }
}

/// The pairs of texts by their characters.
pub open spec fn pairs_view(v: Seq<(String, String)>) -> Seq<(Seq<char>, Seq<char>)> {
    v.map_values(|p: (String, String)| (p.0@, p.1@))
}

fn contains_pair(v: &Vec<(String, String)>, a: &str, b: &str) -> (r: bool)
    ensures
        r == pairs_view(v@).contains((a@, b@)),
{
    let mut i: usize = 0;
    while i < v.len()
        invariant
            i <= v@.len(),
            forall|k: int| 0 <= k < i ==> (#[trigger] pairs_view(v@)[k]) != (a@, b@),
        decreases v.len() - i,
    {
        if str_eq(v[i].0.as_str(), a) && str_eq(v[i].1.as_str(), b) {
            assert(pairs_view(v@)[i as int] == (a@, b@));
            return true;
        }
        assert(pairs_view(v@)[i as int] != (a@, b@));
        i = i + 1;
    }
    proof {
        if pairs_view(v@).contains((a@, b@)) {
            let w = choose|w: int| 0 <= w < pairs_view(v@).len() && pairs_view(v@)[w] == (a@, b@);
            assert(pairs_view(v@)[w] != (a@, b@));
        }
    }
    false
}

/// The remote repositories that the configurations use, each `(url, rev)`
/// once, in the order they are first met: the repositories to clone.
pub fn remotes_to_clone(configs: &Vec<Config>) -> (r: Vec<(String, String)>)
    ensures
        pairs_view(r@) == first_occurrences(remote_keys(config_entries(configs@))),
        pairs_view(r@).no_duplicates(),
        forall|x: (Seq<char>, Seq<char>)|
            pairs_view(r@).contains(x) <==> remote_keys(config_entries(configs@)).contains(x),
{
    let mut out: Vec<(String, String)> = Vec::new();
    let mut i: usize = 0;
    proof {
        assert(configs@.take(0) =~= Seq::<Config>::empty());
        assert(pairs_view(out@) =~= Seq::empty());
    }
    while i < configs.len()
        invariant
            i <= configs@.len(),
            pairs_view(out@) == first_occurrences(remote_keys(config_entries(configs@.take(i as int)))),
        decreases configs.len() - i,
    {
        let repos = &configs[i].repos;
        let ghost before = config_entries(configs@.take(i as int));
        let mut j: usize = 0;
        proof {
            assert(repos@.take(0) =~= Seq::<Repo>::empty());
            assert(before + repos@.take(0) =~= before);
        }
        while j < repos.len()
            invariant
                j <= repos@.len(),
                pairs_view(out@) == first_occurrences(remote_keys(before + repos@.take(j as int))),
            decreases repos.len() - j,
        {
            let ghost e0 = before + repos@.take(j as int);
            let ghost e1 = before + repos@.take(j + 1);
            proof {
                assert(e1.drop_last() =~= e0);
                assert(e1.last() == repos@[j as int]);
            }
            match &repos[j] {
                Repo::Remote(x) => {
                    proof {
                        assert(remote_keys(e1) == remote_keys(e0).push((x.repo@, x.rev@)));
                    }
                    proof {
                        assert(remote_keys(e1).drop_last() =~= remote_keys(e0));
                        assert(remote_keys(e1).last() == (x.repo@, x.rev@));
                    }
                    if !contains_pair(&out, x.repo.as_str(), x.rev.as_str()) {
                        let ghost old_out = out@;
                        out.push((x.repo.clone(), x.rev.clone()));
                        proof {
                            assert(pairs_view(out@) =~= pairs_view(old_out).push((x.repo@, x.rev@)));
                        }
                    }
                },
                _ => {
                    proof {
                        assert(remote_keys(e1) == remote_keys(e0));
                    }
                },
            }
            j = j + 1;
        }
        proof {
            assert(repos@.take(repos@.len() as int) =~= repos@);
            assert(configs@.take(i + 1).drop_last() =~= configs@.take(i as int));
            assert(configs@.take(i + 1).last() == configs@[i as int]);
        }
        i = i + 1;
    }
    proof {
        assert(configs@.take(configs@.len() as int) =~= configs@);
        first_occurrences_distinct_and_complete(remote_keys(config_entries(configs@)));
    }
    out
}

/// Every definition an entry lists is well formed.
pub open spec fn entry_wf(r: Repo) -> bool {
    match r {
        Repo::Remote(x) => forall|j: int| 0 <= j < x.hooks@.len() ==> (#[trigger] x.hooks@[j]).wf(),
        Repo::Local(x) => forall|j: int| 0 <= j < x.hooks@.len() ==> (#[trigger] x.hooks@[j]).wf(),
        Repo::Meta(x) => forall|j: int| 0 <= j < x.hooks@.len() ==> (#[trigger] x.hooks@[j]).0.wf(),
        Repo::Builtin(x) => forall|j: int| 0 <= j < x.hooks@.len() ==> (#[trigger] x.hooks@[j]).0.wf(),
    }
}

/// `cloned[c]` is the first clone made for `(url, rev)`.
pub open spec fn first_clone(cloned: Seq<((String, String), HookRepo)>, url: Seq<char>, rev: Seq<char>, c: int) -> bool {
    &&& 0 <= c < cloned.len()
    &&& cloned[c].0.0@ == url && cloned[c].0.1@ == rev
    &&& forall|q: int| 0 <= q < c ==> !((#[trigger] cloned[q]).0.0@ == url && cloned[q].0.1@ == rev)
}

/// Some clone was made for `(url, rev)`.
pub open spec fn has_clone(cloned: Seq<((String, String), HookRepo)>, url: Seq<char>, rev: Seq<char>) -> bool {
    exists|c: int| 0 <= c < cloned.len() && (#[trigger] cloned[c]).0.0@ == url && cloned[c].0.1@ == rev
}

/// `r` is a remote entry with no clone among `cloned`.
pub open spec fn lacks_clone(r: Repo, cloned: Seq<((String, String), HookRepo)>) -> bool {
    match r {
        Repo::Remote(x) => !has_clone(cloned, x.repo@, x.rev@),
        _ => false,
    }
}

/// `h` is the repository of the entry `r`: the first clone of a remote entry's
/// `(url, rev)`, or the entry's own definitions.
pub open spec fn repo_for(r: Repo, cloned: Seq<((String, String), HookRepo)>, h: HookRepo) -> bool {
    match r {
        Repo::Remote(x) => exists|c: int| #[trigger] first_clone(cloned, x.repo@, x.rev@, c) && h.same_as(&cloned[c].1),
        Repo::Local(x) => h is Local && same_hooks(h.hooks(), x.hooks@),
        Repo::Meta(x) => h is Meta && same_hooks(h.hooks(), x.hooks@.map_values(|m: MetaHook| m.0)),
        Repo::Builtin(x) => h is Builtin && same_hooks(h.hooks(), x.hooks@.map_values(|m: BuiltinHook| m.0)),
    }
}

fn find_clone(cloned: &Vec<((String, String), HookRepo)>, url: &str, rev: &str) -> (r: Option<usize>)
    ensures
        match r {
            Some(c) => first_clone(cloned@, url@, rev@, c as int),
            None => !has_clone(cloned@, url@, rev@),
        },
{
    let mut i: usize = 0;
    while i < cloned.len()
        invariant
            i <= cloned@.len(),
            forall|q: int| 0 <= q < i ==> !((#[trigger] cloned@[q]).0.0@ == url@ && cloned@[q].0.1@ == rev@),
        decreases cloned.len() - i,
    {
        if str_eq(cloned[i].0.0.as_str(), url) && str_eq(cloned[i].0.1.as_str(), rev) {
            return Some(i);
        }
        i = i + 1;
    }
    None
}

fn fixed_definitions(v: &Vec<MetaHook>) -> (r: Vec<ManifestHook>)
    requires
        forall|j: int| 0 <= j < v@.len() ==> (#[trigger] v@[j]).0.wf(),
    ensures
        all_wf(r@),
        same_hooks(r@, v@.map_values(|m: MetaHook| m.0)),
{
    let mut r: Vec<ManifestHook> = Vec::new();
    let mut i: usize = 0;
    while i < v.len()
        invariant
            i <= v@.len(),
            forall|j: int| 0 <= j < v@.len() ==> (#[trigger] v@[j]).0.wf(),
            r@.len() == i,
            forall|k: int| 0 <= k < i ==> (#[trigger] r@[k]).wf() && r@[k].same_as(&v@[k].0),
        decreases v.len() - i,
    {
        assert(v@[i as int].0.wf());
        r.push(v[i].0.duplicate());
        i = i + 1;
    }
    r
}

fn builtin_definitions(v: &Vec<BuiltinHook>) -> (r: Vec<ManifestHook>)
    requires
        forall|j: int| 0 <= j < v@.len() ==> (#[trigger] v@[j]).0.wf(),
    ensures
        all_wf(r@),
        same_hooks(r@, v@.map_values(|m: BuiltinHook| m.0)),
{
    let mut r: Vec<ManifestHook> = Vec::new();
    let mut i: usize = 0;
    while i < v.len()
        invariant
            i <= v@.len(),
            forall|j: int| 0 <= j < v@.len() ==> (#[trigger] v@[j]).0.wf(),
            r@.len() == i,
            forall|k: int| 0 <= k < i ==> (#[trigger] r@[k]).wf() && r@[k].same_as(&v@[k].0),
        decreases v.len() - i,
    {
        assert(v@[i as int].0.wf());
        r.push(v[i].0.duplicate());
        i = i + 1;
    }
    r
}

/// The repository of each entry of `config`, in order: for a remote entry the
/// first clone of its `(url, rev)` among `cloned` (each a remote repository),
/// for any other entry its own definitions. `None` when some remote entry has
/// no clone.
pub fn project_repos(config: &Config, cloned: &Vec<((String, String), HookRepo)>) -> (r: Option<Vec<HookRepo>>)
    requires
        forall|i: int| 0 <= i < config.repos@.len() ==> entry_wf(#[trigger] config.repos@[i]),
        forall|c: int| 0 <= c < cloned@.len() ==> (#[trigger] cloned@[c]).1 is Remote && cloned@[c].1.wf(),
    ensures
        r is None <==> exists|i: int|
            0 <= i < config.repos@.len() && lacks_clone(#[trigger] config.repos@[i], cloned@),
        r matches Some(v) ==> v@.len() == config.repos@.len() && forall|i: int|
            0 <= i < v@.len() ==> repo_matches(config.repos@[i], #[trigger] v@[i]) && repo_for(
                config.repos@[i],
                cloned@,
                v@[i],
            ),
{
    let mut out: Vec<HookRepo> = Vec::new();
    let mut i: usize = 0;
    while i < config.repos.len()
        invariant
            i <= config.repos@.len(),
            forall|x: int| 0 <= x < config.repos@.len() ==> entry_wf(#[trigger] config.repos@[x]),
            forall|c: int| 0 <= c < cloned@.len() ==> (#[trigger] cloned@[c]).1 is Remote && cloned@[c].1.wf(),
            out@.len() == i,
            forall|x: int|
                0 <= x < i ==> repo_matches(config.repos@[x], #[trigger] out@[x]) && repo_for(
                    config.repos@[x],
                    cloned@,
                    out@[x],
                ),
            forall|x: int| 0 <= x < i ==> !lacks_clone(#[trigger] config.repos@[x], cloned@),
        decreases config.repos.len() - i,
    {
        assert(entry_wf(config.repos@[i as int]));
        match &config.repos[i] {
            Repo::Remote(x) => match find_clone(cloned, x.repo.as_str(), x.rev.as_str()) {
                None => {
                    assert(lacks_clone(config.repos@[i as int], cloned@));
                    return None;
                },
                Some(c) => {
                    assert(cloned@[c as int].1.wf());
                    let h = cloned[c].1.duplicate();
                    proof {
                        assert(first_clone(cloned@, x.repo@, x.rev@, c as int));
                        assert(has_clone(cloned@, x.repo@, x.rev@));
                        assert(h.hooks().len() == cloned@[c as int].1.hooks().len());
                        assert forall|k: int| 0 <= k < h.hooks().len() implies (#[trigger] h.hooks()[k]).wf() by {
                            assert(all_wf(h.hooks()));
                        }
                    }
                    out.push(h);
                },
            },
            Repo::Local(x) => {
                out.push(HookRepo::local(duplicate_hooks(&x.hooks)));
            },
            Repo::Meta(x) => {
                out.push(HookRepo::Meta { hooks: fixed_definitions(&x.hooks) });
            },
            Repo::Builtin(x) => {
                out.push(HookRepo::Builtin { hooks: builtin_definitions(&x.hooks) });
            },
        }
        i = i + 1;
    }
    Some(out)
}

/// Every hook before place `k` was found and passed its check (with the
/// builders made so far as witnesses).
proof fn lemma_passes_before(
    config: Config,
    built: Seq<HookRepo>,
    supports: Seq<LanguageSupport>,
    bs: Seq<HookBuilder>,
    k: int,
)
    requires
        0 <= k <= bs.len(),
        forall|j: int|
            0 <= j < k ==> {
                let b = #[trigger] bs[j];
                &&& slot_found(config.repos@, built, j)
                &&& built_as(hook_sources(config.repos@, built, config.repos@.len())[j], config, b.definition())
                &&& check_message(b.definition(), supports[j]) is None
            },
    ensures
        passes_before(config, built, supports, k),
{
    let srcs = hook_sources(config.repos@, built, config.repos@.len());
    assert forall|j: int| 0 <= j < k implies slot_found(config.repos@, built, j) && exists|d: ManifestHook|
        #[trigger] built_as(srcs[j], config, d) && check_message(d, supports[j]) is None by {
        let b = bs[j];
        assert(slot_found(config.repos@, built, j));
        assert(built_as(srcs[j], config, b.definition()));
        assert(check_message(b.definition(), supports[j]) is None);
    }
}

/// A hook whose source has no project entry to look up is found.
proof fn lemma_own_slot(cr: Seq<Repo>, built: Seq<HookRepo>, k: int)
    requires
        hook_sources(cr, built, cr.len())[k].1 is None,
    ensures
        slot_found(cr, built, k),
{
}

/// A remote hook whose repository defines its id is found.
proof fn lemma_remote_slot(cr: Seq<Repo>, built: Seq<HookRepo>, k: int, c: RemoteHook)
    requires
        hook_sources(cr, built, cr.len())[k].1 == Some(c),
        defines(built[hook_places(cr, cr.len())[k]], c.id@),
    ensures
        slot_found(cr, built, k),
{
}

/// A failed check of the hook at place `k` is its failure.
proof fn lemma_fails_check(
    config: Config,
    built: Seq<HookRepo>,
    supports: Seq<LanguageSupport>,
    k: int,
    src: (ManifestHook, Option<RemoteHook>),
    he: HookError,
)
    requires
        hook_sources(config.repos@, built, config.repos@.len())[k] === src,
        slot_found(config.repos@, built, k),
        he matches HookError::Hook { hook, message } && exists|d: ManifestHook|
            #[trigger] built_as(src, config, d) && d.id@ == hook@ && check_message(d, supports[k]) == Some(
                message@,
            ),
    ensures
        fails_at(config, built, supports, k, WorkspaceError::Hook(he)),
{
}

/// The builder of the hook at `idx` defined by `def` itself (a local, meta or
/// builtin hook), with the configuration's defaults, checked against
/// `support`.
fn own_hook_builder(
    config: &Config,
    repo: &HookRepo,
    def: &ManifestHook,
    idx: usize,
    project_path: &str,
    support: LanguageSupport,
) -> (r: Result<HookBuilder, HookError>)
    requires
        def.wf(),
    ensures
        match r {
            Ok(b) => {
                &&& b.wf()
                &&& b.index() == idx
                &&& b.definition().id@ == def.id@
                &&& built_as((*def, None), *config, b.definition())
                &&& origin_for(*repo, project_path@, b.origin())
                &&& check_message(b.definition(), support) is None
            },
            Err(e) => e matches HookError::Hook { hook, message } && exists|d: ManifestHook|
                #[trigger] built_as((*def, None), *config, d) && d.id@ == hook@ && check_message(d, support)
                    == Some(message@),
        },
{
    let dup = def.duplicate();
    let ghost start = dup;
    let mut b = HookBuilder::new(origin_of(repo, project_path), dup, idx);
    b.combine(config);
    proof {
        assert(combined_with(start, *config, b.definition()));
        assert(built_as((*def, None), *config, b.definition()));
    }
    match b.check(support) {
        Err(e) => Err(e),
        Ok(()) => Ok(b),
    }
}

/// The builder of the remote hook at `idx` whose repository definition is
/// `def`, updated by the project's entry `entry`, with the configuration's
/// defaults, checked against `support`.
fn remote_hook_builder(
    config: &Config,
    repo: &HookRepo,
    def: &ManifestHook,
    entry: &RemoteHook,
    idx: usize,
    project_path: &str,
    support: LanguageSupport,
) -> (r: Result<HookBuilder, HookError>)
    requires
        def.wf(),
        entry.wf(),
    ensures
        match r {
            Ok(b) => {
                &&& b.wf()
                &&& b.index() == idx
                &&& b.definition().id@ == def.id@
                &&& built_as((*def, Some(*entry)), *config, b.definition())
                &&& origin_for(*repo, project_path@, b.origin())
                &&& check_message(b.definition(), support) is None
            },
            Err(e) => e matches HookError::Hook { hook, message } && exists|d: ManifestHook|
                #[trigger] built_as((*def, Some(*entry)), *config, d) && d.id@ == hook@ && check_message(
                    d,
                    support,
                ) == Some(message@),
        },
{
    let dup = def.duplicate();
    let ghost start = dup;
    let mut b = HookBuilder::new(origin_of(repo, project_path), dup, idx);
    b.update(entry);
    let ghost mid = b.definition();
    b.combine(config);
    proof {
        assert(updated_by(start, *entry, mid));
        assert(combined_with(mid, *config, b.definition()));
        assert(built_as((*def, Some(*entry)), *config, b.definition()));
    }
    match b.check(support) {
        Err(e) => Err(e),
        Ok(()) => Ok(b),
    }
}

/// The hooks of a project, set up in configuration order, each for the
/// repository built for its entry (`repos`, one per entry) and checked against
/// what its language supports (`supports`, one per hook, in order): a remote
/// hook starts from its repository's first definition of its id, updated by
/// the configured keys; a local, meta or builtin hook is its own definition;
/// each then takes the configuration's defaults. A builder's index is its place
/// in the list and its origin is its entry's repository in this project. The
/// first hook that fails, in order, is reported: a remote hook its repository
/// lacks, or a failed check.
pub fn project_hook_builders(
    config: &Config,
    repos: &Vec<HookRepo>,
    project_path: &str,
    supports: &Vec<LanguageSupport>,
) -> (r: Result<Vec<HookBuilder>, WorkspaceError>)
    requires
        repos@.len() == config.repos@.len(),
        forall|i: int| 0 <= i < repos@.len() ==> repo_matches(config.repos@[i], #[trigger] repos@[i]),
        configured_ids(config.repos@).len() <= u32::MAX,
        supports@.len() == configured_ids(config.repos@).len(),
    ensures
        hook_sources(config.repos@, repos@, config.repos@.len()).len() == configured_ids(config.repos@).len(),
        hook_places(config.repos@, config.repos@.len()).len() == configured_ids(config.repos@).len(),
        match r {
            Ok(bs) => bs@.len() == configured_ids(config.repos@).len() && forall|k: int|
                0 <= k < bs@.len() ==> {
                    let b = #[trigger] bs@[k];
                    &&& b.wf()
                    &&& b.index() == k
                    &&& b.definition().id@ == configured_ids(config.repos@)[k]
                    &&& built_as(
                        hook_sources(config.repos@, repos@, config.repos@.len())[k],
                        *config,
                        b.definition(),
                    )
                    &&& origin_for(
                        repos@[hook_places(config.repos@, config.repos@.len())[k]],
                        project_path@,
                        b.origin(),
                    )
                    &&& check_message(b.definition(), supports@[k]) is None
                },
            Err(e) => exists|k: int|
                0 <= k < configured_ids(config.repos@).len() && passes_before(*config, repos@, supports@, k)
                    && #[trigger] fails_at(*config, repos@, supports@, k, e),
        },
{
    let ghost cr = config.repos@;
    let ghost n = cr.len();
    let ghost all = hook_sources(cr, repos@, n);
    let ghost places = hook_places(cr, n);
    proof {
        lemma_slots(cr, repos@, n, n);
        assert(cr.take(n as int) =~= cr);
    }
    let mut builders: Vec<HookBuilder> = Vec::new();
    let mut i: usize = 0;
    while i < config.repos.len()
        invariant
            i <= cr.len(),
            n == cr.len(),
            cr == config.repos@,
            all == hook_sources(cr, repos@, n),
            places == hook_places(cr, n),
            all.len() == configured_ids(cr).len(),
            places.len() == configured_ids(cr).len(),
            repos@.len() == cr.len(),
            forall|x: int| 0 <= x < repos@.len() ==> repo_matches(cr[x], #[trigger] repos@[x]),
            configured_ids(cr).len() <= u32::MAX,
            supports@.len() == configured_ids(cr).len(),
            configured_ids(cr.take(i as int)).len() <= configured_ids(cr).len(),
            builders@.len() == configured_ids(cr.take(i as int)).len(),
            forall|k: int|
                0 <= k < builders@.len() ==> {
                    let b = #[trigger] builders@[k];
                    &&& b.wf()
                    &&& b.index() == k
                    &&& b.definition().id@ == configured_ids(cr.take(i as int))[k]
                    &&& built_as(all[k], *config, b.definition())
                    &&& origin_for(repos@[places[k]], project_path@, b.origin())
                    &&& check_message(b.definition(), supports@[k]) is None
                    &&& slot_found(cr, repos@, k)
                },
        decreases cr.len() - i,
    {
        proof {
            assert(cr.take(i + 1).drop_last() =~= cr.take(i as int));
            assert(cr.take(i + 1).last() == cr[i as int]);
            lemma_configured_ids_prefix(cr, i as int + 1);
            lemma_slots(cr, repos@, i as nat, i as nat);
            lemma_slots(cr, repos@, (i + 1) as nat, n);
        }
        let repo = &repos[i];
        let ghost base = configured_ids(cr.take(i as int));
        let ghost ids = repo_hook_ids(cr[i as int]);
        let ghost esrc = entry_sources(cr[i as int], repos@[i as int]);
        assert(repo_matches(cr[i as int], repos@[i as int]));
        match &config.repos[i] {
            Repo::Remote(rc) => {
                let mut j: usize = 0;
                while j < rc.hooks.len()
                    invariant
                        j <= rc.hooks@.len(),
                        i < cr.len(),
                        n == cr.len(),
                        cr == config.repos@,
                        all == hook_sources(cr, repos@, n),
                        places == hook_places(cr, n),
                        all.len() == configured_ids(cr).len(),
                        places.len() == configured_ids(cr).len(),
                        repos@.len() == cr.len(),
                        *repo == repos@[i as int],
                        cr[i as int] == Repo::Remote(*rc),
                        repo_matches(cr[i as int], *repo),
                        ids == rc.hooks@.map_values(|h: RemoteHook| h.id@),
                        esrc == rc.hooks@.map_values(
                            |c: RemoteHook| (first_definition(*repo, c.id@), Some(c)),
                        ),
                        base == configured_ids(cr.take(i as int)),
                        ids == repo_hook_ids(cr[i as int]),
                        esrc == entry_sources(cr[i as int], repos@[i as int]),
                        base + ids == configured_ids(cr.take(i + 1)),
                        configured_ids(cr.take(i + 1)).len() <= configured_ids(cr).len(),
                        configured_ids(cr).len() <= u32::MAX,
                        supports@.len() == configured_ids(cr).len(),
                        builders@.len() == base.len() + j,
                        forall|k: int|
                            0 <= k < builders@.len() ==> {
                                let b = #[trigger] builders@[k];
                                &&& b.wf()
                                &&& b.index() == k
                                &&& b.definition().id@ == (base + ids)[k]
                                &&& built_as(all[k], *config, b.definition())
                                &&& origin_for(repos@[places[k]], project_path@, b.origin())
                                &&& check_message(b.definition(), supports@[k]) is None
                                &&& slot_found(cr, repos@, k)
                            },
                    decreases rc.hooks.len() - j,
                {
                    let hook_config = &rc.hooks[j];
                    assert(hook_config.wf());
                    let ghost k = builders@.len() as int;
                    proof {
                        lemma_entry_slot(cr, repos@, i as int, j as int);
                        assert(all[base.len() + j] === esrc[j as int]);
                        assert(esrc[j as int] == (first_definition(*repo, hook_config.id@), Some(*hook_config)));
                    }
                    match repo.get_hook(hook_config.id.as_str()) {
                        None => {
                            let e = WorkspaceError::HookNotFound {
                                hook: hook_config.id.clone(),
                                repo: repo.display(),
                            };
                            proof {
                                assert(!defines(*repo, hook_config.id@));
                                assert(fails_at(*config, repos@, supports@, k, e));
                                lemma_passes_before(*config, repos@, supports@, builders@, k);
                            }
                            return Err(e);
                        },
                        Some(def) => {
                            proof {
                                let w = choose|w: int|
                                    0 <= w < repo.hooks().len() && repo.hooks()[w] == *def && def.id@
                                        == hook_config.id@ && forall|q: int|
                                        0 <= q < w ==> (#[trigger] repo.hooks()[q]).id@ != hook_config.id@;
                                assert(repo.hooks()[w].wf());
                                assert(is_first_with_id(repo.hooks(), hook_config.id@, w));
                                let w2 = choose|w2: int| is_first_with_id(repo.hooks(), hook_config.id@, w2);
                                if w2 < w {
                                    assert(repo.hooks()[w2].id@ != hook_config.id@);
                                }
                                if w < w2 {
                                    assert(repo.hooks()[w].id@ != hook_config.id@);
                                }
                                assert(first_definition(*repo, hook_config.id@) == *def);
                                assert(defines(*repo, hook_config.id@));
                            }
                            let idx = builders.len();
                            match remote_hook_builder(config, repo, def, hook_config, idx, project_path, supports[idx]) {
                                Err(he) => {
                                    let e = WorkspaceError::Hook(he);
                                    proof {
                                        lemma_remote_slot(cr, repos@, k, *hook_config);
                                        assert(fails_at(*config, repos@, supports@, k, e));
                                        lemma_passes_before(*config, repos@, supports@, builders@, k);
                                    }
                                    return Err(e);
                                },
                                Ok(b) => {
                                    proof {
                                        lemma_remote_slot(cr, repos@, k, *hook_config);
                                    }
                                    builders.push(b);
                                },
                            }
                        },
                    }
                    j = j + 1;
                }
            },
            Repo::Local(lc) => {
                let mut j: usize = 0;
                while j < lc.hooks.len()
                    invariant
                        j <= lc.hooks@.len(),
                        i < cr.len(),
                        n == cr.len(),
                        cr == config.repos@,
                        all == hook_sources(cr, repos@, n),
                        places == hook_places(cr, n),
                        all.len() == configured_ids(cr).len(),
                        places.len() == configured_ids(cr).len(),
                        repos@.len() == cr.len(),
                        *repo == repos@[i as int],
                        cr[i as int] == Repo::Local(*lc),
                        repo_matches(cr[i as int], *repo),
                        ids == lc.hooks@.map_values(|h: ManifestHook| h.id@),
                        esrc == lc.hooks@.map_values(|m: ManifestHook| (m, None::<RemoteHook>)),
                        base == configured_ids(cr.take(i as int)),
                        ids == repo_hook_ids(cr[i as int]),
                        esrc == entry_sources(cr[i as int], repos@[i as int]),
                        base + ids == configured_ids(cr.take(i + 1)),
                        configured_ids(cr.take(i + 1)).len() <= configured_ids(cr).len(),
                        configured_ids(cr).len() <= u32::MAX,
                        supports@.len() == configured_ids(cr).len(),
                        builders@.len() == base.len() + j,
                        forall|k: int|
                            0 <= k < builders@.len() ==> {
                                let b = #[trigger] builders@[k];
                                &&& b.wf()
                                &&& b.index() == k
                                &&& b.definition().id@ == (base + ids)[k]
                                &&& built_as(all[k], *config, b.definition())
                                &&& origin_for(repos@[places[k]], project_path@, b.origin())
                                &&& check_message(b.definition(), supports@[k]) is None
                                &&& slot_found(cr, repos@, k)
                            },
                    decreases lc.hooks.len() - j,
                {
                    assert(lc.hooks@[j as int].wf());
                    let ghost k = builders@.len() as int;
                    proof {
                        lemma_entry_slot(cr, repos@, i as int, j as int);
                        assert(all[base.len() + j] === esrc[j as int]);
                    }
                    let idx = builders.len();
                    match own_hook_builder(config, repo, &lc.hooks[j], idx, project_path, supports[idx]) {
                        Err(he) => {
                            let e = WorkspaceError::Hook(he);
                            proof {
                                lemma_own_slot(cr, repos@, k);
                                lemma_fails_check(*config, repos@, supports@, k, esrc[j as int], he);
                                lemma_passes_before(*config, repos@, supports@, builders@, k);
                            }
                            return Err(e);
                        },
                        Ok(b) => {
                            proof {
                                lemma_own_slot(cr, repos@, k);
                            }
                            builders.push(b);
                        },
                    }
                    j = j + 1;
                }
            },
            Repo::Meta(mc) => {
                let mut j: usize = 0;
                while j < mc.hooks.len()
                    invariant
                        j <= mc.hooks@.len(),
                        i < cr.len(),
                        n == cr.len(),
                        cr == config.repos@,
                        all == hook_sources(cr, repos@, n),
                        places == hook_places(cr, n),
                        all.len() == configured_ids(cr).len(),
                        places.len() == configured_ids(cr).len(),
                        repos@.len() == cr.len(),
                        *repo == repos@[i as int],
                        cr[i as int] == Repo::Meta(*mc),
                        repo_matches(cr[i as int], *repo),
                        ids == mc.hooks@.map_values(|h: crate::config::MetaHook| h.0.id@),
                        esrc == mc.hooks@.map_values(
                            |m: crate::config::MetaHook| (m.0, None::<RemoteHook>),
                        ),
                        base == configured_ids(cr.take(i as int)),
                        ids == repo_hook_ids(cr[i as int]),
                        esrc == entry_sources(cr[i as int], repos@[i as int]),
                        base + ids == configured_ids(cr.take(i + 1)),
                        configured_ids(cr.take(i + 1)).len() <= configured_ids(cr).len(),
                        configured_ids(cr).len() <= u32::MAX,
                        supports@.len() == configured_ids(cr).len(),
                        builders@.len() == base.len() + j,
                        forall|k: int|
                            0 <= k < builders@.len() ==> {
                                let b = #[trigger] builders@[k];
                                &&& b.wf()
                                &&& b.index() == k
                                &&& b.definition().id@ == (base + ids)[k]
                                &&& built_as(all[k], *config, b.definition())
                                &&& origin_for(repos@[places[k]], project_path@, b.origin())
                                &&& check_message(b.definition(), supports@[k]) is None
                                &&& slot_found(cr, repos@, k)
                            },
                    decreases mc.hooks.len() - j,
                {
                    assert(mc.hooks@[j as int].0.wf());
                    let ghost k = builders@.len() as int;
                    proof {
                        lemma_entry_slot(cr, repos@, i as int, j as int);
                        assert(all[base.len() + j] === esrc[j as int]);
                    }
                    let idx = builders.len();
                    match own_hook_builder(config, repo, &mc.hooks[j].0, idx, project_path, supports[idx]) {
                        Err(he) => {
                            let e = WorkspaceError::Hook(he);
                            proof {
                                lemma_own_slot(cr, repos@, k);
                                lemma_fails_check(*config, repos@, supports@, k, esrc[j as int], he);
                                lemma_passes_before(*config, repos@, supports@, builders@, k);
                            }
                            return Err(e);
                        },
                        Ok(b) => {
                            proof {
                                lemma_own_slot(cr, repos@, k);
                            }
                            builders.push(b);
                        },
                    }
                    j = j + 1;
                }
            },
            Repo::Builtin(bc) => {
                let mut j: usize = 0;
                while j < bc.hooks.len()
                    invariant
                        j <= bc.hooks@.len(),
                        i < cr.len(),
                        n == cr.len(),
                        cr == config.repos@,
                        all == hook_sources(cr, repos@, n),
                        places == hook_places(cr, n),
                        all.len() == configured_ids(cr).len(),
                        places.len() == configured_ids(cr).len(),
                        repos@.len() == cr.len(),
                        *repo == repos@[i as int],
                        cr[i as int] == Repo::Builtin(*bc),
                        repo_matches(cr[i as int], *repo),
                        ids == bc.hooks@.map_values(|h: crate::config::BuiltinHook| h.0.id@),
                        esrc == bc.hooks@.map_values(
                            |m: crate::config::BuiltinHook| (m.0, None::<RemoteHook>),
                        ),
                        base == configured_ids(cr.take(i as int)),
                        ids == repo_hook_ids(cr[i as int]),
                        esrc == entry_sources(cr[i as int], repos@[i as int]),
                        base + ids == configured_ids(cr.take(i + 1)),
                        configured_ids(cr.take(i + 1)).len() <= configured_ids(cr).len(),
                        configured_ids(cr).len() <= u32::MAX,
                        supports@.len() == configured_ids(cr).len(),
                        builders@.len() == base.len() + j,
                        forall|k: int|
                            0 <= k < builders@.len() ==> {
                                let b = #[trigger] builders@[k];
                                &&& b.wf()
                                &&& b.index() == k
                                &&& b.definition().id@ == (base + ids)[k]
                                &&& built_as(all[k], *config, b.definition())
                                &&& origin_for(repos@[places[k]], project_path@, b.origin())
                                &&& check_message(b.definition(), supports@[k]) is None
                                &&& slot_found(cr, repos@, k)
                            },
                    decreases bc.hooks.len() - j,
                {
                    assert(bc.hooks@[j as int].0.wf());
                    let ghost k = builders@.len() as int;
                    proof {
                        lemma_entry_slot(cr, repos@, i as int, j as int);
                        assert(all[base.len() + j] === esrc[j as int]);
                    }
                    let idx = builders.len();
                    match own_hook_builder(config, repo, &bc.hooks[j].0, idx, project_path, supports[idx]) {
                        Err(he) => {
                            let e = WorkspaceError::Hook(he);
                            proof {
                                lemma_own_slot(cr, repos@, k);
                                lemma_fails_check(*config, repos@, supports@, k, esrc[j as int], he);
                                lemma_passes_before(*config, repos@, supports@, builders@, k);
                            }
                            return Err(e);
                        },
                        Ok(b) => {
                            proof {
                                lemma_own_slot(cr, repos@, k);
                            }
                            builders.push(b);
                        },
                    }
                    j = j + 1;
                }
            },
        }
        i = i + 1;
    }
    proof {
        assert(cr.take(cr.len() as int) =~= cr);
    }
    Ok(builders)
}

proof fn lemma_configured_ids_prefix(cr: Seq<Repo>, n: int)
    requires
        0 < n <= cr.len(),
    ensures
        configured_ids(cr.take(n)) == configured_ids(cr.take(n - 1)) + repo_hook_ids(cr[n - 1]),
        configured_ids(cr.take(n)).len() <= configured_ids(cr).len(),
    decreases cr.len() - n,
{
    assert(cr.take(n).drop_last() =~= cr.take(n - 1));
    assert(cr.take(n).last() == cr[n - 1]);
    if n < cr.len() {
        lemma_configured_ids_prefix(cr, n + 1);
    } else {
        assert(cr.take(n) =~= cr);
    }
}

/// Builds each hook with what its language supports (`supports`, one per
/// builder, in order); the first failure, in order, is returned.
pub fn build_hooks(builders: Vec<HookBuilder>, supports: &Vec<LanguageSupport>) -> (r: Result<
    Vec<Hook>,
    HookError,
>)
    requires
        supports@.len() == builders@.len(),
        forall|k: int| 0 <= k < builders@.len() ==> (#[trigger] builders@[k]).wf() && builders@[k].index() <= u32::MAX,
    ensures
        match r {
            Ok(hs) => hs@.len() == builders@.len() && forall|k: int|
                0 <= k < hs@.len() ==> crate::hook::built_from(
                    builders@[k].definition(),
                    builders@[k].index(),
                    #[trigger] hs@[k],
                ) && hs@[k].origin == builders@[k].origin(),
            Err(e) => exists|k: int|
                #![trigger builders@[k]]
                {
                    &&& 0 <= k < builders@.len()
                    &&& forall|x: int|
                        0 <= x < k ==> check_message((#[trigger] builders@[x]).definition(), supports@[x]) is None
                    &&& e matches HookError::Hook { hook, message } && hook@ == builders@[k].definition().id@
                        && check_message(builders@[k].definition(), supports@[k]) == Some(message@)
                },
        },
{
    let ghost all = builders@;
    assert(all.len() == builders.len());
    let mut rest = builders;
    let mut hooks: Vec<Hook> = Vec::new();
    let mut k: usize = 0;
    proof {
        assert(rest@ =~= all.skip(0));
    }
    while rest.len() > 0
        invariant
            k <= all.len(),
            all == builders@,
            all.len() <= usize::MAX,
            rest@ == all.skip(k as int),
            supports@.len() == all.len(),
            forall|x: int| 0 <= x < all.len() ==> (#[trigger] all[x]).wf() && all[x].index() <= u32::MAX,
            hooks@.len() == k,
            forall|x: int|
                0 <= x < k ==> crate::hook::built_from(all[x].definition(), all[x].index(), #[trigger] hooks@[x])
                    && hooks@[x].origin == all[x].origin() && check_message(all[x].definition(), supports@[x])
                    is None,
        decreases rest.len(),
    {
        let b = rest.remove(0);
        proof {
            assert(b == all[k as int]);
        }
        let support = supports[k];
        match b.build(support) {
            Ok(h) => {
                hooks.push(h);
            },
            Err(e) => {
                proof {
                    assert(check_message(all[k as int].definition(), supports@[k as int]) is Some);
                    assert forall|x: int| 0 <= x < k implies check_message(
                        (#[trigger] all[x]).definition(),
                        supports@[x],
                    ) is None by {
                        assert(hooks@[x].origin == all[x].origin());
                    }
                }
                return Err(e);
            },
        }
        proof {
            assert(rest@ =~= all.skip(k + 1));
        }
        k = k + 1;
    }
    Ok(hooks)
}

} // verus!
