//! `prek auto-update`: choosing the new revision of each remote repository
//! from what git reports, and rewriting the `rev:` lines of the configuration.
use vstd::prelude::*;

use crate::config::{Config, Repo};
use crate::rev_lines::{opt_view, revisions_view, Revision};
use crate::text::{
    chars_of, join, join_seq, lines, lines_of, parse_u64, parse_u64_spec,
    push_str, str_eq, string_of, strs_view, trim, trimmed, words, words_of,
};

verus! {

/// A tag and its creation time, from one line of `git for-each-ref`
/// (`<tag> <unix seconds>`); lines that do not have that form are skipped.
pub open spec fn tag_line(l: Seq<char>) -> Option<(Seq<char>, u64)> {
    let w = words_of(l, false);
    if w.len() >= 2 && parse_u64_spec(w[1]) is Some {
        Some((w[0], parse_u64_spec(w[1]).unwrap()))
    } else {
        None
    }
}

/// The tags and times of the given lines, in order.
pub open spec fn tag_entries(ls: Seq<Seq<char>>) -> Seq<(Seq<char>, u64)>
    decreases ls.len(),
{
    if ls.len() == 0 {
        Seq::empty()
    } else {
        let r = tag_entries(ls.drop_last());
        match tag_line(ls.last()) {
            Some(e) => r.push(e),
            None => r,
        }
    }
}

/// The tags with their times as views.
pub open spec fn tags_view(s: Seq<(String, u64)>) -> Seq<(Seq<char>, u64)> {
    s.map_values(|p: (String, u64)| (p.0@, p.1))
}

/// The tags and their Unix times listed by `git for-each-ref --format=%(refname:lstrip=2) %(creatordate:unix)`.
pub fn parse_tag_timestamps(output: &str) -> (r: Vec<(String, u64)>)
    ensures
        tags_view(r@) == tag_entries(lines_of(output@)),
{
    let ls = lines(output);
    let mut r: Vec<(String, u64)> = Vec::new();
    let mut i: usize = 0;
    while i < ls.len()
        invariant
            i <= ls@.len(),
            strs_view(ls@) == lines_of(output@),
            tags_view(r@) == tag_entries(strs_view(ls@.take(i as int))),
        decreases ls.len() - i,
    {
        let ghost before = r@;
        proof {
            assert(strs_view(ls@.take(i + 1)).drop_last() =~= strs_view(ls@.take(i as int)));
            assert(strs_view(ls@.take(i + 1)).last() == ls@[i as int]@);
        }
        let w = words(ls[i].as_str(), false);
        if w.len() >= 2 {
            proof {
                assert(strs_view(w@)[1] == w@[1]@);
                assert(strs_view(w@)[0] == w@[0]@);
            }
            if let Some(ts) = parse_u64(w[1].as_str()) {
                r.push((w[0].clone(), ts));
                proof {
                    assert(tags_view(r@) =~= tags_view(before).push((w@[0]@, ts)));
                }
            }
        }
        i = i + 1;
    }
    proof {
        assert(ls@.take(ls@.len() as int) =~= ls@);
    }
    r
}

/// Seconds in a day.
pub const SECONDS_PER_DAY: u64 = 86400;

/// The latest creation time a tag may have when `cooldown_days` days must have
/// passed since it was made, at Unix time `now`.
pub open spec fn cooldown_cutoff(now: u64, cooldown_days: u8) -> u64 {
    let age = cooldown_days as u64 * SECONDS_PER_DAY;
    if now >= age {
        (now - age) as u64
    } else {
        0
    }
}

/// The index of the first tag created no later than `cutoff`.
pub open spec fn first_eligible(tags: Seq<(Seq<char>, u64)>, cutoff: u64, i: int) -> bool {
    &&& 0 <= i < tags.len()
    &&& tags[i].1 <= cutoff
    &&& forall|j: int| 0 <= j < i ==> tags[j].1 > cutoff
}

/// Among tags listed newest first, the first one that is at least
/// `cooldown_days` days old at Unix time `now`.
pub fn eligible_tag(tags: &Vec<(String, u64)>, now: u64, cooldown_days: u8) -> (r: Option<usize>)
    ensures
        match r {
            Some(i) => first_eligible(
                tags_view(tags@),
                cooldown_cutoff(now, cooldown_days),
                i as int,
            ),
            None => forall|j: int|
                0 <= j < tags@.len() ==> tags@[j].1 > cooldown_cutoff(now, cooldown_days),
        },
{
    let cutoff_secs: u64 = (cooldown_days as u64) * SECONDS_PER_DAY;
    let cutoff = now.saturating_sub(cutoff_secs);
    let mut i: usize = 0;
    while i < tags.len()
        invariant
            i <= tags@.len(),
            cutoff == cooldown_cutoff(now, cooldown_days),
            forall|j: int| 0 <= j < i ==> tags@[j].1 > cutoff,
        decreases tags.len() - i,
    {
        if tags[i].1 <= cutoff {
            return Some(i);
        }
        i = i + 1;
    }
    None
}

/// The edit distance between `a` and `b`: the fewest insertions, deletions and
/// substitutions of one character that turn `a` into `b`.
pub open spec fn edit_distance(a: Seq<char>, b: Seq<char>) -> nat
    decreases a.len() + b.len(),
{
    if a.len() == 0 {
        b.len()
    } else if b.len() == 0 {
        a.len()
    } else {
        let del = edit_distance(a.drop_last(), b) + 1;
        let ins = edit_distance(a, b.drop_last()) + 1;
        let sub = edit_distance(a.drop_last(), b.drop_last()) + if a.last() == b.last() {
            0nat
        } else {
            1nat
        };
        if del <= ins && del <= sub {
            del
        } else if ins <= sub {
            ins
        } else {
            sub
        }
    }
}

/// The edit distance between two strings (`levenshtein::levenshtein`).
#[verifier::external_body]
fn levenshtein_distance(a: &str, b: &str) -> (d: usize)
    ensures
        d as nat == edit_distance(a@, b@),
        a@ == b@ ==> d == 0,
{
    levenshtein::levenshtein(a, b)
}

/// The lines naming a version-like tag: those that contain a `.`.
pub open spec fn dotted(ls: Seq<Seq<char>>) -> Seq<Seq<char>> {
    ls.filter(|l: Seq<char>| l.contains('.'))
}

/// `c` is the candidate closest to `current`, the earliest one among equals.
pub open spec fn closest_candidate(cands: Seq<Seq<char>>, current: Seq<char>, k: int) -> bool {
    &&& 0 <= k < cands.len()
    &&& forall|j: int|
        0 <= j < cands.len() ==> edit_distance(cands[k], current) <= edit_distance(
            #[trigger] cands[j],
            current,
        )
    &&& forall|j: int| 0 <= j < k ==> edit_distance(cands[k], current) < edit_distance(
        #[trigger] cands[j],
        current,
    )
}

fn contains_char(s: &str, c: char) -> (b: bool)
    ensures
        b == s@.contains(c),
{
    let v = chars_of(s);
    let mut i: usize = 0;
    while i < v.len()
        invariant
            v@ == s@,
            i <= v@.len(),
            forall|k: int| 0 <= k < i ==> v@[k] != c,
        decreases v.len() - i,
    {
        if v[i] == c {
            return true;
        }
        i = i + 1;
    }
    false
}

/// Of the tags that `git tag --points-at` lists, the one that looks like a
/// version (it has a `.`) and is closest to the current revision; the first
/// such among equally close ones.
pub fn best_candidate_tag(points_at: &str, current_rev: &str) -> (r: Option<String>)
    ensures
        match r {
            Some(t) => exists|k: int|
                closest_candidate(dotted(lines_of(points_at@)), current_rev@, k) && dotted(
                    lines_of(points_at@),
                )[k] == t@,
            None => dotted(lines_of(points_at@)).len() == 0,
        },
{
    let ls = lines(points_at);
    let mut cands: Vec<String> = Vec::new();
    let mut i: usize = 0;
    while i < ls.len()
        invariant
            i <= ls@.len(),
            strs_view(ls@) == lines_of(points_at@),
            strs_view(cands@) == dotted(strs_view(ls@.take(i as int))),
        decreases ls.len() - i,
    {
        let ghost before = strs_view(cands@);
        proof {
            let t = strs_view(ls@.take(i + 1));
            assert(t.drop_last() =~= strs_view(ls@.take(i as int)));
            assert(t.last() == ls@[i as int]@);
            reveal_with_fuel(Seq::<_>::filter, 1);
        }
        if contains_char(ls[i].as_str(), '.') {
            cands.push(ls[i].clone());
            proof {
                assert(strs_view(cands@) =~= before.push(ls@[i as int]@));
            }
        }
        i = i + 1;
    }
    proof {
        assert(ls@.take(ls@.len() as int) =~= ls@);
    }
    let ghost cs = strs_view(cands@);
    if cands.len() == 0 {
        return None;
    }
    let mut best: usize = 0;
    let mut best_d = levenshtein_distance(cands[0].as_str(), current_rev);
    let mut j: usize = 1;
    while j < cands.len()
        invariant
            cs == strs_view(cands@),
            1 <= j <= cands@.len(),
            best < j,
            best_d as nat == edit_distance(cs[best as int], current_rev@),
            forall|x: int| 0 <= x < j ==> edit_distance(cs[best as int], current_rev@) <= edit_distance(
                #[trigger] cs[x],
                current_rev@,
            ),
            forall|x: int| 0 <= x < best ==> edit_distance(cs[best as int], current_rev@) < edit_distance(
                #[trigger] cs[x],
                current_rev@,
            ),
        decreases cands.len() - j,
    {
        let d = levenshtein_distance(cands[j].as_str(), current_rev);
        proof {
            assert(cs[j as int] == cands@[j as int]@);
        }
        if d < best_d {
            best = j;
            best_d = d;
        }
        j = j + 1;
    }
    proof {
        assert(closest_candidate(cs, current_rev@, best as int));
        assert(cs[best as int] == cands@[best as int]@);
    }
    Some(cands[best].clone())
}

/// The revision to update to, given the tag that meets the cooldown: the best
/// version-like tag on the same commit when git could list them, the tag itself otherwise.
pub fn pick_revision(target_tag: &str, points_at: Option<&str>, current_rev: &str) -> (r: String)
    ensures
        match points_at {
            None => r@ == target_tag@,
            Some(out) => if dotted(lines_of(out@)).len() == 0 {
                r@ == target_tag@
            } else {
                exists|k: int|
                    closest_candidate(dotted(lines_of(out@)), current_rev@, k) && dotted(
                        lines_of(out@),
                    )[k] == r@
            },
        },
{
    match points_at {
        None => target_tag.to_owned(),
        Some(out) => match best_candidate_tag(out, current_rev) {
            Some(t) => t,
            None => target_tag.to_owned(),
        },
    }
}

/// The commit a revision is frozen to, from the output of `git rev-parse <rev>^{}`:
/// `None` when the revision already is that commit.
pub fn frozen_revision(rev: &str, rev_parse_output: &str) -> (r: Option<String>)
    ensures
        match r {
            None => rev@ == trimmed(rev_parse_output@),
            Some(e) => rev@ != trimmed(rev_parse_output@) && e@ == trimmed(rev_parse_output@),
        },
{
    let exact = trim(rev_parse_output);
    if str_eq(rev, exact.as_str()) {
        None
    } else {
        Some(exact)
    }
}

/// The configured hook ids that the new manifest no longer provides.
pub open spec fn missing_hook_ids(configured: Seq<Seq<char>>, provided: Seq<Seq<char>>) -> Seq<
    Seq<char>,
> {
    configured.filter(|id: Seq<char>| !provided.contains(id))
}

/// The error when updating to `rev` would lose configured hooks.
pub open spec fn missing_hooks_message(rev: Seq<char>, missing: Seq<Seq<char>>) -> Seq<char> {
    "Cannot update to rev `"@ + rev + "`, hook"@ + (if missing.len() > 1 {
        "s"@
    } else {
        Seq::empty()
    }) + " "@ + (if missing.len() > 1 {
        "are"@
    } else {
        "is"@
    }) + " missing: "@ + join_seq(missing, ", "@)
}

fn contains_string(items: &Vec<String>, s: &str) -> (b: bool)
    ensures
        b == strs_view(items@).contains(s@),
{
    let mut i: usize = 0;
    while i < items.len()
        invariant
            i <= items@.len(),
            forall|k: int| 0 <= k < i ==> items@[k]@ != s@,
        decreases items.len() - i,
    {
        if str_eq(items[i].as_str(), s) {
            proof {
                assert(strs_view(items@)[i as int] == s@);
            }
            return true;
        }
        i = i + 1;
    }
    proof {
        if strs_view(items@).contains(s@) {
            let k = choose|k: int| 0 <= k < strs_view(items@).len() && strs_view(items@)[k] == s@;
            assert(items@[k]@ == s@);
        }
    }
    false
}

/// Checks that the manifest at the new revision still provides every hook the
/// configuration uses.
pub fn check_hooks_present(rev: &str, configured: &Vec<String>, provided: &Vec<String>) -> (r: Result<
    (),
    String,
>)
    ensures
        match r {
            Ok(()) => missing_hook_ids(strs_view(configured@), strs_view(provided@)).len() == 0,
            Err(m) => missing_hook_ids(strs_view(configured@), strs_view(provided@)).len() > 0
                && m@ == missing_hooks_message(
                rev@,
                missing_hook_ids(strs_view(configured@), strs_view(provided@)),
            ),
        },
{
    let ghost pv = strs_view(provided@);
    let mut missing: Vec<String> = Vec::new();
    let mut i: usize = 0;
    while i < configured.len()
        invariant
            i <= configured@.len(),
            pv == strs_view(provided@),
            strs_view(missing@) == missing_hook_ids(strs_view(configured@.take(i as int)), pv),
        decreases configured.len() - i,
    {
        let ghost before = strs_view(missing@);
        proof {
            let t = strs_view(configured@.take(i + 1));
            assert(t.drop_last() =~= strs_view(configured@.take(i as int)));
            assert(t.last() == configured@[i as int]@);
            reveal_with_fuel(Seq::<_>::filter, 1);
        }
        if !contains_string(provided, configured[i].as_str()) {
            missing.push(configured[i].clone());
            proof {
                assert(strs_view(missing@) =~= before.push(configured@[i as int]@));
            }
        }
        i = i + 1;
    }
    proof {
        assert(configured@.take(configured@.len() as int) =~= configured@);
    }
    if missing.len() == 0 {
        return Ok(());
    }
    let mut v: Vec<char> = Vec::new();
    push_str(&mut v, "Cannot update to rev `");
    push_str(&mut v, rev);
    push_str(&mut v, "`, hook");
    let ghost a = v@;
    if missing.len() > 1 {
        push_str(&mut v, "s");
    }
    proof {
        if missing.len() <= 1 {
            assert(v@ =~= a + Seq::<char>::empty());
        }
    }
    push_str(&mut v, " ");
    if missing.len() > 1 {
        push_str(&mut v, "are");
    } else {
        push_str(&mut v, "is");
    }
    push_str(&mut v, " missing: ");
    push_str(&mut v, join(&missing, ", ").as_str());
    Err(string_of(v.as_slice()))
}

/// How many repositories are updated at once: `jobs`, or the machine's
/// `concurrency` when `jobs` is 0, at most the number of repositories to update
/// (those named by the filter, or all), and at least one.
pub open spec fn job_count_spec(jobs: usize, concurrency: usize, filter_len: usize, repo_count: usize) -> usize {
    let j = if jobs == 0 {
        concurrency
    } else {
        jobs
    };
    let limit = if filter_len == 0 {
        repo_count
    } else {
        filter_len
    };
    let m = if j < limit {
        j
    } else {
        limit
    };
    if m < 1 {
        1
    } else {
        m
    }
}

pub fn job_count(jobs: usize, concurrency: usize, filter_len: usize, repo_count: usize) -> (r: usize)
    ensures
        r == job_count_spec(jobs, concurrency, filter_len, repo_count),
        r >= 1,
{
    let j = if jobs == 0 {
        concurrency
    } else {
        jobs
    };
    let limit = if filter_len == 0 {
        repo_count
    } else {
        filter_len
    };
    let m = if j < limit {
        j
    } else {
        limit
    };
    if m < 1 {
        1
    } else {
        m
    }
}

/// Whether the repository at `url` is updated: no filter was given, or the
/// filter names it.
pub fn repo_selected(filter: &Vec<String>, url: &str) -> (b: bool)
    ensures
        b == (filter@.len() == 0 || strs_view(filter@).contains(url@)),
{
    filter.len() == 0 || contains_string(filter, url)
}

/// The remote repositories of a configuration, in order, by URL and revision.
pub open spec fn remotes_of(repos: Seq<Repo>) -> Seq<(Seq<char>, Seq<char>)>
    decreases repos.len(),
{
    if repos.len() == 0 {
        Seq::empty()
    } else {
        let r = remotes_of(repos.drop_last());
        match repos.last() {
            Repo::Remote(x) => r.push((x.repo@, x.rev@)),
            _ => r,
        }
    }
}

/// A pair of strings by their views.
pub open spec fn pairs_view(v: Seq<(String, String)>) -> Seq<(Seq<char>, Seq<char>)> {
    v.map_values(|p: (String, String)| (p.0@, p.1@))
}

/// The URL and revision of each remote repository of `config`, in order.
pub fn remote_sources(config: &Config) -> (r: Vec<(String, String)>)
    ensures
        pairs_view(r@) == remotes_of(config.repos@),
{
    let mut r: Vec<(String, String)> = Vec::new();
    let mut i: usize = 0;
    while i < config.repos.len()
        invariant
            i <= config.repos@.len(),
            pairs_view(r@) == remotes_of(config.repos@.take(i as int)),
        decreases config.repos.len() - i,
    {
        proof {
            assert(config.repos@.take(i + 1).drop_last() =~= config.repos@.take(i as int));
        }
        match &config.repos[i] {
            Repo::Remote(x) => {
                let ghost before = r@;
                r.push((x.repo.clone(), x.rev.clone()));
                proof {
                    assert(pairs_view(r@) =~= pairs_view(before).push((x.repo@, x.rev@)));
                }
            },
            _ => {},
        }
        i = i + 1;
    }
    proof {
        assert(config.repos@.take(config.repos@.len() as int) =~= config.repos@);
    }
    r
}

/// One use of a remote repository: the project, the repository's place among
/// that project's remote repositories, and how many those are.
#[derive(Debug, Clone, Copy, PartialEq, Eq, Structural)]
pub struct RepoUse {
    pub group: usize,
    pub project: usize,
    pub remote_index: usize,
    pub remote_size: usize,
}

/// The remote repositories of all projects, each updated once: the distinct
/// repositories (by URL and revision) in order of first use, and every use of
/// one, in order.
#[derive(Debug)]
pub struct RemoteUpdates {
    pub repos: Vec<(String, String)>,
    pub uses: Vec<RepoUse>,
}

/// Each use of a remote repository in the projects, in order: project, place.
pub open spec fn occurrences(projects: Seq<Seq<(Seq<char>, Seq<char>)>>) -> Seq<(int, int)>
    decreases projects.len(),
{
    if projects.len() == 0 {
        Seq::empty()
    } else {
        let p = projects.len() - 1;
        occurrences(projects.drop_last()) + Seq::new(projects.last().len(), |i: int| (p, i))
    }
}

/// `uses` records the uses `occ` of remote repositories of `projects`, each
/// with the group of its repository among the distinct `repos`, and every
/// group has a use.
pub open spec fn uses_recorded(
    projects: Seq<Seq<(Seq<char>, Seq<char>)>>,
    occ: Seq<(int, int)>,
    repos: Seq<(Seq<char>, Seq<char>)>,
    uses: Seq<RepoUse>,
) -> bool {
    &&& forall|a: int, b: int| 0 <= a < b < repos.len() ==> repos[a] != repos[b]
    &&& uses.len() == occ.len()
    &&& forall|k: int|
        0 <= k < occ.len() ==> {
            let x = #[trigger] uses[k];
            &&& x.project == occ[k].0
            &&& x.remote_index == occ[k].1
            &&& 0 <= occ[k].0 < projects.len()
            &&& 0 <= occ[k].1 < projects[occ[k].0].len()
            &&& x.remote_size == projects[occ[k].0].len()
            &&& x.group < repos.len()
            &&& repos[x.group as int] == projects[occ[k].0][occ[k].1]
        }
    &&& forall|g: int| 0 <= g < repos.len() ==> #[trigger] has_use(uses, g)
}

/// Some use is of the repository group `g`.
pub open spec fn has_use(uses: Seq<RepoUse>, g: int) -> bool {
    exists|k: int| 0 <= k < uses.len() && #[trigger] uses[k].group == g
}

/// `u` groups the remote repositories of `projects` as `auto-update` does:
/// every use in order, each distinct repository once.
pub open spec fn groups_remotes(projects: Seq<Seq<(Seq<char>, Seq<char>)>>, u: RemoteUpdates) -> bool {
    uses_recorded(projects, occurrences(projects), pairs_view(u.repos@), u.uses@)
}

fn find_repo(repos: &Vec<(String, String)>, url: &str, rev: &str) -> (r: Option<usize>)
    ensures
        match r {
            Some(g) => g < repos@.len() && pairs_view(repos@)[g as int] == (url@, rev@),
            None => forall|j: int| 0 <= j < repos@.len() ==> pairs_view(repos@)[j] != (url@, rev@),
        },
{
    let mut g: usize = 0;
    while g < repos.len()
        invariant
            g <= repos@.len(),
            forall|j: int| 0 <= j < g ==> pairs_view(repos@)[j] != (url@, rev@),
        decreases repos.len() - g,
    {
        if str_eq(repos[g].0.as_str(), url) && str_eq(repos[g].1.as_str(), rev) {
            return Some(g);
        }
        g = g + 1;
    }
    None
}

proof fn lemma_occurrences_prefix(pv: Seq<Seq<(Seq<char>, Seq<char>)>>, n: int)
    requires
        0 < n <= pv.len(),
    ensures
        occurrences(pv.take(n)) == occurrences(pv.take(n - 1)) + Seq::new(
            pv[n - 1].len(),
            |j: int| (n - 1, j),
        ),
        occurrences(pv.take(n)).len() <= occurrences(pv).len(),
    decreases pv.len() - n,
{
    assert(pv.take(n).drop_last() =~= pv.take(n - 1));
    assert(pv.take(n).last() == pv[n - 1]);
    if n < pv.len() {
        lemma_occurrences_prefix(pv, n + 1);
    } else {
        assert(pv.take(n) =~= pv);
    }
}

proof fn lemma_occurrences_bounds(pv: Seq<Seq<(Seq<char>, Seq<char>)>>, n: int)
    requires
        0 <= n <= pv.len(),
    ensures
        forall|k: int|
            0 <= k < occurrences(pv.take(n)).len() ==> 0 <= (#[trigger] occurrences(pv.take(n))[k]).0 < n
                && 0 <= occurrences(pv.take(n))[k].1 < pv[occurrences(pv.take(n))[k].0].len(),
    decreases n,
{
    if n > 0 {
        lemma_occurrences_bounds(pv, n - 1);
        lemma_occurrences_prefix(pv, n);
        let a = occurrences(pv.take(n - 1));
        let b = Seq::new(pv[n - 1].len(), |j: int| (n - 1, j));
        assert forall|k: int| 0 <= k < occurrences(pv.take(n)).len() implies 0 <= (
        #[trigger] occurrences(pv.take(n))[k]).0 < n && 0 <= occurrences(pv.take(n))[k].1 < pv[occurrences(
            pv.take(n),
        )[k].0].len() by {
            if k < a.len() {
                assert(occurrences(pv.take(n))[k] == a[k]);
            } else {
                assert(occurrences(pv.take(n))[k] == b[k - a.len()]);
            }
        }
    } else {
        assert(pv.take(0) =~= Seq::<Seq<(Seq<char>, Seq<char>)>>::empty());
    }
}

/// Groups the uses of remote repositories, given the remote repositories of
/// each project (`remote_sources`): each distinct repository (same URL and
/// revision) is updated once and its result applied to every use.
pub fn group_remote_repos(projects: &Vec<Vec<(String, String)>>) -> (r: RemoteUpdates)
    ensures
        groups_remotes(projects@.map_values(|p: Vec<(String, String)>| pairs_view(p@)), r),
{
    let ghost pv = projects@.map_values(|p: Vec<(String, String)>| pairs_view(p@));
    let mut repos: Vec<(String, String)> = Vec::new();
    let mut uses: Vec<RepoUse> = Vec::new();
    let mut p: usize = 0;
    proof {
        assert(pv.take(0) =~= Seq::<Seq<(Seq<char>, Seq<char>)>>::empty());
    }
    while p < projects.len()
        invariant
            p <= projects@.len(),
            pv == projects@.map_values(|q: Vec<(String, String)>| pairs_view(q@)),
            uses_recorded(pv, occurrences(pv.take(p as int)), pairs_view(repos@), uses@),
        decreases projects.len() - p,
    {
        proof {
            lemma_occurrences_prefix(pv, p + 1);
            assert(pv[p as int] == pairs_view(projects@[p as int]@));
        }
        let size = projects[p].len();
        let ghost base = occurrences(pv.take(p as int));
        let mut i: usize = 0;
        proof {
            assert(base + Seq::new(0, |j: int| (p as int, j)) =~= base);
            lemma_occurrences_bounds(pv, p as int);
        }
        while i < size
            invariant
                p < projects@.len(),
                i <= size,
                size == projects@[p as int]@.len(),
                pv == projects@.map_values(|q: Vec<(String, String)>| pairs_view(q@)),
                pv[p as int] == pairs_view(projects@[p as int]@),
                base == occurrences(pv.take(p as int)),
                forall|k: int| 0 <= k < base.len() ==> 0 <= (#[trigger] base[k]).0 < pv.len()
                    && 0 <= base[k].1 < pv[base[k].0].len(),
                uses_recorded(
                    pv,
                    base + Seq::new(i as nat, |j: int| (p as int, j)),
                    pairs_view(repos@),
                    uses@,
                ),
            decreases size - i,
        {
            let ghost occ = base + Seq::new(i as nat, |j: int| (p as int, j));
            let ghost occ2 = base + Seq::new((i + 1) as nat, |j: int| (p as int, j));
            proof {
                assert(occ2 =~= occ.push((p as int, i as int)));
            }
            let ghost old_repos = pairs_view(repos@);
            let ghost old_uses = uses@;
            let url = projects[p][i].0.as_str();
            let rev = projects[p][i].1.as_str();
            proof {
                assert(pv[p as int][i as int] == (url@, rev@));
            }
            let g = match find_repo(&repos, url, rev) {
                Some(g) => g,
                None => {
                    repos.push((projects[p][i].0.clone(), projects[p][i].1.clone()));
                    proof {
                        assert(pairs_view(repos@) =~= old_repos.push((url@, rev@)));
                    }
                    repos.len() - 1
                },
            };
            uses.push(RepoUse { group: g, project: p, remote_index: i, remote_size: size });
            proof {
                let nr = pairs_view(repos@);
                assert forall|a: int, b: int| 0 <= a < b < nr.len() implies nr[a] != nr[b] by {
                    if b == old_repos.len() {
                        assert(nr[a] == old_repos[a]);
                    }
                }
                assert forall|k: int| 0 <= k < occ2.len() implies {
                    let x = #[trigger] uses@[k];
                    &&& x.project == occ2[k].0
                    &&& x.remote_index == occ2[k].1
                    &&& 0 <= occ2[k].0 < pv.len()
                    &&& 0 <= occ2[k].1 < pv[occ2[k].0].len()
                    &&& x.remote_size == pv[occ2[k].0].len()
                    &&& x.group < nr.len()
                    &&& nr[x.group as int] == pv[occ2[k].0][occ2[k].1]
                } by {
                    if k < occ.len() {
                        assert(uses@[k] == old_uses[k]);
                        assert(occ2[k] == occ[k]);
                        if k < base.len() {
                            assert(occ[k] == base[k]);
                        }
                        assert(nr[old_uses[k].group as int] == old_repos[old_uses[k].group as int]);
                    }
                }
                assert forall|gg: int| 0 <= gg < nr.len() implies #[trigger] has_use(uses@, gg) by {
                    if gg < old_repos.len() {
                        assert(has_use(old_uses, gg));
                        let k = choose|k: int| 0 <= k < old_uses.len() && #[trigger] old_uses[k].group == gg;
                        assert(uses@[k] == old_uses[k]);
                    } else {
                        assert(uses@[uses@.len() - 1].group == gg);
                    }
                }
            }
            i = i + 1;
        }
        proof {
            assert(pv.take(p + 1).drop_last() =~= pv.take(p as int));
        }
        p = p + 1;
    }
    proof {
        assert(pv.take(pv.len() as int) =~= pv);
    }
    RemoteUpdates { repos, uses }
}

proof fn lemma_occurrences_split(pv: Seq<Seq<(Seq<char>, Seq<char>)>>, m: int)
    requires
        0 <= m <= pv.len(),
    ensures
        occurrences(pv.take(m)).len() <= occurrences(pv).len(),
        forall|k: int|
            0 <= k < occurrences(pv.take(m)).len() ==> #[trigger] occurrences(pv)[k] == occurrences(
                pv.take(m),
            )[k],
    decreases pv.len() - m,
{
    if m < pv.len() {
        lemma_occurrences_split(pv, m + 1);
        lemma_occurrences_prefix(pv, m + 1);
        assert forall|k: int| 0 <= k < occurrences(pv.take(m)).len() implies #[trigger] occurrences(
            pv,
        )[k] == occurrences(pv.take(m))[k] by {
            assert(occurrences(pv.take(m + 1))[k] == occurrences(pv.take(m))[k]);
        }
    } else {
        assert(pv.take(m) =~= pv);
    }
}

fn duplicate_outcome(o: &Option<Revision>) -> (r: Option<Revision>)
    ensures
        revisions_view(seq![r]) == revisions_view(seq![*o]),
{
    match o {
        Some(rv) => Some(rv.duplicate()),
        None => None,
    }
}

/// The new revision of each remote repository of each project, from the
/// outcome of updating each distinct repository (`None` where that failed), to
/// rewrite each project's configuration with `write_new_config_text`.
pub fn revision_tables(
    projects: &Vec<Vec<(String, String)>>,
    updates: &RemoteUpdates,
    outcomes: &Vec<Option<Revision>>,
) -> (tables: Vec<Vec<Option<Revision>>>)
    requires
        groups_remotes(projects@.map_values(|p: Vec<(String, String)>| pairs_view(p@)), *updates),
        outcomes@.len() == updates.repos@.len(),
    ensures
        tables@.len() == projects@.len(),
        forall|p: int| 0 <= p < projects@.len() ==> (#[trigger] tables@[p])@.len() == projects@[p]@.len(),
        forall|p: int, i: int, g: int|
            0 <= p < projects@.len() && 0 <= i < projects@[p]@.len() && 0 <= g < updates.repos@.len()
                && pairs_view(updates.repos@)[g] == pairs_view(projects@[p]@)[i] ==> #[trigger] revisions_view(
                tables@[p]@,
            )[i] == #[trigger] revisions_view(outcomes@)[g],
{
    let ghost pv = projects@.map_values(|p: Vec<(String, String)>| pairs_view(p@));
    let ghost occ = occurrences(pv);
    let ghost rv = pairs_view(updates.repos@);
    let mut tables: Vec<Vec<Option<Revision>>> = Vec::new();
    let mut k: usize = 0;
    let mut p: usize = 0;
    proof {
        assert(pv.take(0) =~= Seq::<Seq<(Seq<char>, Seq<char>)>>::empty());
    }
    while p < projects.len()
        invariant
            p <= projects@.len(),
            pv == projects@.map_values(|q: Vec<(String, String)>| pairs_view(q@)),
            occ == occurrences(pv),
            rv == pairs_view(updates.repos@),
            groups_remotes(pv, *updates),
            outcomes@.len() == updates.repos@.len(),
            k == occurrences(pv.take(p as int)).len(),
            tables@.len() == p,
            forall|q: int| 0 <= q < p ==> (#[trigger] tables@[q])@.len() == projects@[q]@.len(),
            forall|q: int, i: int, g: int|
                0 <= q < p && 0 <= i < projects@[q]@.len() && 0 <= g < rv.len() && rv[g]
                    == pairs_view(projects@[q]@)[i] ==> #[trigger] revisions_view(tables@[q]@)[i]
                    == #[trigger] revisions_view(outcomes@)[g],
        decreases projects.len() - p,
    {
        proof {
            lemma_occurrences_prefix(pv, p + 1);
            lemma_occurrences_split(pv, p + 1);
            assert(pv[p as int] == pairs_view(projects@[p as int]@));
        }
        let size = projects[p].len();
        let mut row: Vec<Option<Revision>> = Vec::new();
        let mut i: usize = 0;
        while i < size
            invariant
                p < projects@.len(),
                i <= size,
                size == projects@[p as int]@.len(),
                pv == projects@.map_values(|q: Vec<(String, String)>| pairs_view(q@)),
                pv[p as int] == pairs_view(projects@[p as int]@),
                occ == occurrences(pv),
                rv == pairs_view(updates.repos@),
                groups_remotes(pv, *updates),
                outcomes@.len() == updates.repos@.len(),
                occurrences(pv.take(p + 1)) == occurrences(pv.take(p as int)) + Seq::new(
                    pv[p as int].len(),
                    |j: int| (p as int, j),
                ),
                occurrences(pv.take(p + 1)).len() <= occ.len(),
                forall|x: int|
                    0 <= x < occurrences(pv.take(p + 1)).len() ==> #[trigger] occ[x] == occurrences(
                        pv.take(p + 1),
                    )[x],
                k == occurrences(pv.take(p as int)).len() + i,
                row@.len() == i,
                forall|j: int, g: int|
                    0 <= j < i && 0 <= g < rv.len() && rv[g] == pv[p as int][j] ==> #[trigger] revisions_view(
                        row@,
                    )[j] == #[trigger] revisions_view(outcomes@)[g],
            decreases size - i,
        {
            proof {
                assert(occurrences(pv.take(p + 1))[k as int] == (p as int, i as int));
                assert(occ[k as int] == (p as int, i as int));
            }
            proof {
                assert(k < updates.uses@.len());
            }
            let u = updates.uses[k];
            proof {
                assert(u == updates.uses@[k as int]);
                assert(rv[u.group as int] == pv[p as int][i as int]);
            }
            let ghost before = row@;
            let o = duplicate_outcome(&outcomes[u.group]);
            row.push(o);
            proof {
                assert forall|j: int, g: int|
                    0 <= j < i + 1 && 0 <= g < rv.len() && rv[g] == pv[p as int][j] implies #[trigger] revisions_view(
                    row@,
                )[j] == #[trigger] revisions_view(outcomes@)[g] by {
                    if j < i {
                        assert(row@[j] == before[j]);
                        assert(revisions_view(row@)[j] == revisions_view(before)[j]);
                    } else {
                        assert(g == u.group) by {
                            if g != u.group {
                                if g < u.group {
                                    assert(rv[g] != rv[u.group as int]);
                                } else {
                                    assert(rv[u.group as int] != rv[g]);
                                }
                            }
                        }
                        assert(revisions_view(seq![o]) == revisions_view(seq![outcomes@[g]]));
                        assert(revisions_view(row@)[j] == revisions_view(seq![o])[0]);
                        assert(revisions_view(outcomes@)[g] == revisions_view(seq![outcomes@[g]])[0]);
                    }
                }
            }
            assert(k < updates.uses.len());
            k = k + 1;
            i = i + 1;
        }
        let ghost before_tables = tables@;
        tables.push(row);
        proof {
            assert forall|q: int, i2: int, g: int|
                0 <= q < p + 1 && 0 <= i2 < projects@[q]@.len() && 0 <= g < rv.len() && rv[g]
                    == pairs_view(projects@[q]@)[i2] implies #[trigger] revisions_view(tables@[q]@)[i2]
                == #[trigger] revisions_view(outcomes@)[g] by {
                if q < p {
                    assert(tables@[q] == before_tables[q]);
                } else {
                    assert(pv[q] == pairs_view(projects@[q]@));
                }
            }
        }
        p = p + 1;
    }
    tables
}

/// The line reported for a repository that was updated or was already up to
/// date; `label` is the repository's URL as shown.
pub open spec fn update_report_text(label: Seq<char>, old_rev: Seq<char>, new_rev: Seq<char>) -> Seq<char> {
    if old_rev == new_rev {
        "["@ + label + "] already up to date"@
    } else {
        "["@ + label + "] updating "@ + old_rev + " -> "@ + new_rev
    }
}

pub fn update_report(label: &str, old_rev: &str, new_rev: &str) -> (r: String)
    ensures
        r@ == update_report_text(label@, old_rev@, new_rev@),
{
    let mut v: Vec<char> = Vec::new();
    push_str(&mut v, "[");
    push_str(&mut v, label);
    if str_eq(old_rev, new_rev) {
        push_str(&mut v, "] already up to date");
    } else {
        push_str(&mut v, "] updating ");
        push_str(&mut v, old_rev);
        push_str(&mut v, " -> ");
        push_str(&mut v, new_rev);
    }
    string_of(v.as_slice())
}

/// The line reported for a repository whose update failed with `error`.
pub fn failure_report(label: &str, error: &str) -> (r: String)
    ensures
        r@ == "["@ + label@ + "] update failed: "@ + error@,
{
    let mut v: Vec<char> = Vec::new();
    push_str(&mut v, "[");
    push_str(&mut v, label);
    push_str(&mut v, "] update failed: ");
    push_str(&mut v, error);
    string_of(v.as_slice())
}

/// The outcome of updating a repository at `current_rev`: the revision found
/// (`None` when no tag met the cooldown, keeping the current one), replaced by
/// the commit it points to when `--freeze` found one (`frozen_to`), in which
/// case the revision is kept as the `frozen` note.
pub fn resolved_revision(current_rev: &str, found: Option<String>, frozen_to: Option<String>) -> (r: Revision)
    ensures
        match found {
            None => r.rev@ == current_rev@ && r.frozen is None,
            Some(f) => match frozen_to {
                Some(e) => r.rev@ == e@ && opt_view(r.frozen) == Some(f@),
                None => r.rev@ == f@ && r.frozen is None,
            },
        },
{
    match found {
        None => Revision { rev: current_rev.to_string(), frozen: None },
        Some(f) => match frozen_to {
            Some(e) => Revision { rev: e, frozen: Some(f) },
            None => Revision { rev: f, frozen: None },
        },
    }
}

/// The remote repositories of each project's configuration, and their
/// grouping into distinct repositories to update.
pub fn collect_remote_updates(configs: &Vec<Config>) -> (r: (Vec<Vec<(String, String)>>, RemoteUpdates))
    ensures
        r.0@.len() == configs@.len(),
        forall|p: int| 0 <= p < configs@.len() ==> pairs_view((#[trigger] r.0@[p])@) == remotes_of(configs@[p].repos@),
        groups_remotes(r.0@.map_values(|p: Vec<(String, String)>| pairs_view(p@)), r.1),
{
    let mut projects: Vec<Vec<(String, String)>> = Vec::new();
    let mut i: usize = 0;
    while i < configs.len()
        invariant
            i <= configs@.len(),
            projects@.len() == i,
            forall|p: int| 0 <= p < i ==> pairs_view((#[trigger] projects@[p])@) == remotes_of(configs@[p].repos@),
        decreases configs.len() - i,
    {
        projects.push(remote_sources(&configs[i]));
        i = i + 1;
    }
    let updates = group_remote_repos(&projects);
    (projects, updates)
}

} // verus!
