//! `prek try-repo`: the revision to try and the configuration that runs the
//! hooks of a repository.
use vstd::prelude::*;

use crate::text::{join, join_seq, push_str, string_of, strs_view, words, words_of};

verus! {

/// The revision `git ls-remote <repo> HEAD` reports: its first word (words
/// split at ASCII white space).
pub fn ls_remote_head(output: &str) -> (r: Result<String, String>)
    ensures
        match r {
            Ok(rev) => words_of(output@, true).len() > 0 && rev@ == words_of(output@, true)[0],
            Err(m) => words_of(output@, true).len() == 0 && m@
                == "Failed to parse HEAD revision from git ls-remote output"@,
        },
{
    let w = words(output, true);
    if w.len() == 0 {
        return Err("Failed to parse HEAD revision from git ls-remote output".to_string());
    }
    proof {
        assert(strs_view(w@)[0] == w@[0]@);
    }
    Ok(w[0].clone())
}

/// The hooks part of the configuration: one `- id:` line per hook, indented
/// six spaces.
pub open spec fn hook_lines(ids: Seq<Seq<char>>) -> Seq<char> {
    join_seq(ids.map_values(|id: Seq<char>| "      - id: "@ + id), "\n"@)
}

/// The configuration that runs the hooks `ids` of the repository `repo` at `rev`.
pub open spec fn try_repo_config_text(repo: Seq<char>, rev: Seq<char>, ids: Seq<Seq<char>>) -> Seq<char> {
    "repos:\n  - repo: "@ + repo + "\n    rev: "@ + rev + "\n    hooks:\n"@ + hook_lines(ids) + "\n"@
}

pub fn try_repo_config(repo: &str, rev: &str, ids: &Vec<String>) -> (r: String)
    ensures
        r@ == try_repo_config_text(repo@, rev@, strs_view(ids@)),
{
    let mut lines: Vec<String> = Vec::new();
    let mut i: usize = 0;
    while i < ids.len()
        invariant
            i <= ids@.len(),
            strs_view(lines@) == strs_view(ids@.take(i as int)).map_values(
                |id: Seq<char>| "      - id: "@ + id,
            ),
        decreases ids.len() - i,
    {
        let ghost before = strs_view(lines@);
        lines.push(crate::text::concat2("      - id: ", ids[i].as_str()));
        proof {
            assert(strs_view(lines@) =~= before.push("      - id: "@ + ids@[i as int]@));
            assert(strs_view(ids@.take(i + 1)) =~= strs_view(ids@.take(i as int)).push(
                ids@[i as int]@,
            ));
            assert(strs_view(ids@.take(i + 1)).map_values(|id: Seq<char>| "      - id: "@ + id)
                =~= strs_view(ids@.take(i as int)).map_values(
                |id: Seq<char>| "      - id: "@ + id,
            ).push("      - id: "@ + ids@[i as int]@));
        }
        i = i + 1;
    }
    proof {
        assert(ids@.take(ids@.len() as int) =~= ids@);
    }
    let mut v: Vec<char> = Vec::new();
    push_str(&mut v, "repos:\n  - repo: ");
    push_str(&mut v, repo);
    push_str(&mut v, "\n    rev: ");
    push_str(&mut v, rev);
    push_str(&mut v, "\n    hooks:\n");
    push_str(&mut v, join(&lines, "\n").as_str());
    push_str(&mut v, "\n");
    string_of(v.as_slice())
}

/// The warning when `--config` is given to `try-repo`, which ignores it.
pub fn ignored_config_warning() -> (r: &'static str)
    ensures
        r@ == "`--config` option is ignored when using `try-repo`"@,
{
    "`--config` option is ignored when using `try-repo`"
}

} // verus!
