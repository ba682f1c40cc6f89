//! `prek install` and `prek uninstall`: which hook types to install, what the
//! installed script says, and what happens to a hook that is already there.
use vstd::prelude::*;

use crate::config::HookType;
use crate::hook_impl::CUR_SCRIPT_VERSION;
use crate::text::{
    concat2, concat3, contains_str, contains_text, occurs_at, decimal, join, join_seq, push_decimal, push_str,
    replace_all, replaced, string_of, strs_view,
};

verus! {

/// The head of the hook script, up to its arguments: the shebang to fill in
/// and the comment with prek's mark.
pub const HOOK_TEMPLATE_HEAD: &'static str = "[SHEBANG]
# File generated by prek: https://github.com/j178/prek
# ID: 182c10f181da4464a3eec51b83331688

ARGS=(";

/// The rest of the hook script, with `[PREK_ARGS]` and `[PREK_PATH]` to fill in.
pub const HOOK_TEMPLATE_BODY: &'static str = "[PREK_ARGS])

HERE=\"$(cd \"$(dirname \"$0\")\" && pwd)\"
ARGS+=(--hook-dir \"$HERE\" -- \"$@\")
PREK=[PREK_PATH]

# Check if the full path to prek is executable, otherwise fallback to PATH
if [ ! -x \"$PREK\" ]; then
    PREK=\"prek\"
fi

exec \"$PREK\" \"${ARGS[@]}\"

";

/// The hook script, with `[SHEBANG]`, `[PREK_ARGS]` and `[PREK_PATH]` to fill in.
pub open spec fn hook_template() -> Seq<char> {
    HOOK_TEMPLATE_HEAD@ + HOOK_TEMPLATE_BODY@
}

/// The mark of a script that prek wrote; a new one is used for each change to
/// the script. No earlier ones are in use.
pub const CURRENT_HASH: &'static str = "182c10f181da4464a3eec51b83331688";

/// Whether a hook script is one that prek installed: it holds prek's mark.
pub fn is_our_script(content: &str) -> (b: bool)
    ensures
        b == contains_text(content@, CURRENT_HASH@),
{
    contains_str(content, CURRENT_HASH)
}

/// The hook types to install: those asked for; else those the configuration
/// names (`default_install_hook_types`); else `pre-commit` alone.
pub open spec fn chosen_hook_types(given: Seq<HookType>, configured: Option<Seq<HookType>>) -> Seq<
    HookType,
> {
    if given.len() > 0 {
        given
    } else {
        let c = match configured {
            Some(c) => c,
            None => Seq::empty(),
        };
        if c.len() > 0 {
            c
        } else {
            seq![HookType::PreCommit]
        }
    }
}

/// The hook types to install or uninstall; `configured` is what the project's
/// configuration (or, outside a project, the first configuration file found)
/// names as defaults.
pub fn get_hook_types(given: Vec<HookType>, configured: Option<Vec<HookType>>) -> (r: Vec<HookType>)
    ensures
        r@ == chosen_hook_types(
            given@,
            match configured {
                Some(c) => Some(c@),
                None => None,
            },
        ),
        r@.len() > 0,
{
    if given.len() > 0 {
        return given;
    }
    let c = match configured {
        Some(c) => c,
        None => Vec::new(),
    };
    if c.len() > 0 {
        c
    } else {
        vec![HookType::PreCommit]
    }
}

/// What to do with a hook already at the place of the new one.
#[derive(Debug, PartialEq, Eq, Structural)]
pub enum ExistingHook {
    /// There is none, or it is prek's own: write over it.
    WriteOver,
    /// `--overwrite` was given: say so and write over it.
    Overwrite,
    /// Another tool's hook: keep it as `<hook>.legacy`.
    MoveToLegacy,
}

/// What happens to a hook that exists (`exists`) at the place of the new one.
pub open spec fn existing_hook_choice(exists: bool, overwrite: bool, ours: bool) -> ExistingHook {
    if !exists {
        ExistingHook::WriteOver
    } else if overwrite {
        ExistingHook::Overwrite
    } else if !ours {
        ExistingHook::MoveToLegacy
    } else {
        ExistingHook::WriteOver
    }
}

/// What happens to a hook that exists (`exists`) at the place of the new one.
pub fn existing_hook_action(exists: bool, overwrite: bool, ours: bool) -> (a: ExistingHook)
    ensures
        a == existing_hook_choice(exists, overwrite, ours),
{
    if !exists {
        ExistingHook::WriteOver
    } else if overwrite {
        ExistingHook::Overwrite
    } else if !ours {
        ExistingHook::MoveToLegacy
    } else {
        ExistingHook::WriteOver
    }
}

/// Where another tool's hook is kept: the hook's path with `.legacy` added.
pub fn legacy_path(hook_path: &str) -> (r: String)
    ensures
        r@ == hook_path@ + ".legacy"@,
{
    concat2(hook_path, ".legacy")
}

/// Where the project stands in the repository, for the hook's arguments and the
/// message after installing.
#[derive(Debug)]
pub struct ProjectPlace {
    /// The project directory relative to the git root (empty at the root).
    pub relative: String,
    /// The project directory as shown to the user.
    pub shown: String,
    /// The git root as shown to the user.
    pub git_root_shown: String,
    /// Whether the project directory is the git root.
    pub is_git_root: bool,
}

/// The arguments the installed script passes to `prek`.
pub open spec fn hook_script_args_spec(
    include_flags: Seq<Seq<char>>,
    skip_flags: Seq<Seq<char>>,
    hook_type: HookType,
    config: Option<Seq<char>>,
    project: Option<ProjectPlace>,
    skip_on_missing_config: bool,
) -> Seq<Seq<char>> {
    seq!["hook-impl"@] + include_flags + skip_flags + seq!["--hook-type="@ + hook_type.name()] + (
    match config {
        Some(c) => seq!["--config=\""@ + c + "\""@],
        None => match project {
            Some(p) => if p.relative@.len() > 0 {
                seq!["--cd=\""@ + p.relative@ + "\""@]
            } else {
                Seq::empty()
            },
            None => Seq::empty(),
        },
    }) + (if skip_on_missing_config {
        seq!["--skip-on-missing-config"@]
    } else {
        Seq::empty()
    }) + seq!["--script-version="@ + decimal(CUR_SCRIPT_VERSION as nat)]
}

fn push_all(out: &mut Vec<String>, items: &Vec<String>)
    ensures
        strs_view(final(out)@) == strs_view(old(out)@) + strs_view(items@),
{
    let ghost start = out@;
    let mut i: usize = 0;
    while i < items.len()
        invariant
            i <= items@.len(),
            out@ == start + items@.take(i as int),
        decreases items.len() - i,
    {
        out.push(items[i].clone());
        proof {
            assert(out@ =~= start + items@.take(i + 1));
        }
        i = i + 1;
    }
    proof {
        assert(items@.take(items@.len() as int) =~= items@);
        assert(strs_view(out@) =~= strs_view(start) + strs_view(items@));
    }
}

fn quoted_flag(name: &str, value: &str) -> (r: String)
    ensures
        r@ == name@ + "=\""@ + value@ + "\""@,
{
    let mut v: Vec<char> = Vec::new();
    push_str(&mut v, name);
    push_str(&mut v, "=\"");
    push_str(&mut v, value);
    push_str(&mut v, "\"");
    string_of(v.as_slice())
}

/// The arguments the installed script passes to `prek`: `hook-impl`, the
/// `--include` flags and the `--skip` flags given on the command line (in
/// their normalised form), the hook type, the configuration (`config`, given
/// with `--config`) or else the project's directory when it is not the git
/// root, `--skip-on-missing-config` when asked, and the script's version.
pub fn hook_script_args(
    include_flags: &Vec<String>,
    skip_flags: &Vec<String>,
    hook_type: HookType,
    config: Option<&str>,
    project: Option<&ProjectPlace>,
    skip_on_missing_config: bool,
) -> (r: Vec<String>)
    ensures
        strs_view(r@) == hook_script_args_spec(
            strs_view(include_flags@),
            strs_view(skip_flags@),
            hook_type,
            match config {
                Some(c) => Some(c@),
                None => None,
            },
            match project {
                Some(p) => Some(*p),
                None => None,
            },
            skip_on_missing_config,
        ),
{
    let mut args: Vec<String> = Vec::new();
    args.push("hook-impl".to_string());
    proof {
        assert(strs_view(args@) =~= seq!["hook-impl"@]);
    }
    push_all(&mut args, include_flags);
    push_all(&mut args, skip_flags);
    let ghost a1 = strs_view(args@);
    args.push(concat2("--hook-type=", hook_type.as_str()));
    proof {
        assert(strs_view(args@) =~= a1 + seq!["--hook-type="@ + hook_type.name()]);
    }
    let ghost a2 = strs_view(args@);
    match config {
        Some(c) => {
            args.push(quoted_flag("--config", c));
            proof {
                reveal_strlit("--config");
                reveal_strlit("--config=\"");
                reveal_strlit("=\"");
                assert("--config"@ + "=\""@ =~= "--config=\""@);
                assert(strs_view(args@) =~= a2 + seq!["--config=\""@ + c@ + "\""@]);
            }
        },
        None => match project {
            Some(p) => {
                if !p.relative.as_str().is_empty() {
                    args.push(quoted_flag("--cd", p.relative.as_str()));
                    proof {
                        reveal_strlit("--cd");
                        reveal_strlit("--cd=\"");
                        reveal_strlit("=\"");
                        assert("--cd"@ + "=\""@ =~= "--cd=\""@);
                        assert(strs_view(args@) =~= a2 + seq!["--cd=\""@ + p.relative@ + "\""@]);
                    }
                } else {
                    proof {
                        assert(strs_view(args@) =~= a2 + Seq::<Seq<char>>::empty());
                    }
                }
            },
            None => {
                proof {
                    assert(strs_view(args@) =~= a2 + Seq::<Seq<char>>::empty());
                }
            },
        },
    }
    let ghost a3 = strs_view(args@);
    if skip_on_missing_config {
        args.push("--skip-on-missing-config".to_string());
        proof {
            assert(strs_view(args@) =~= a3 + seq!["--skip-on-missing-config"@]);
        }
    } else {
        proof {
            assert(strs_view(args@) =~= a3 + Seq::<Seq<char>>::empty());
        }
    }
    let ghost a4 = strs_view(args@);
    let mut version: Vec<char> = Vec::new();
    push_str(&mut version, "--script-version=");
    push_decimal(&mut version, CUR_SCRIPT_VERSION as u64);
    args.push(string_of(version.as_slice()));
    proof {
        assert(strs_view(args@) =~= a4 + seq!["--script-version="@ + decimal(CUR_SCRIPT_VERSION as nat)]);
    }
    args
}

/// The first line of the script: `sh` on Windows, `bash` elsewhere.
pub open spec fn shebang(windows: bool) -> Seq<char> {
    if windows {
        "#!/bin/sh"@
    } else {
        "#!/usr/bin/env bash"@
    }
}

/// The script installed as a git hook: the template with its shebang, the
/// arguments joined by spaces, and the quoted path of `prek` filled in, in that order.
pub open spec fn hook_script_text(windows: bool, args: Seq<Seq<char>>, prek_path: Seq<char>) -> Seq<
    char,
> {
    replaced(
        replaced(
            replaced(hook_template(), "[SHEBANG]"@, shebang(windows)),
            "[PREK_ARGS]"@,
            join_seq(args, " "@),
        ),
        "[PREK_PATH]"@,
        "\""@ + prek_path + "\""@,
    )
}

/// The script to install as a git hook.
pub fn render_hook_script(windows: bool, args: &Vec<String>, prek_path: &str) -> (s: String)
    ensures
        s@ == hook_script_text(windows, strs_view(args@), prek_path@),
{
    proof {
        reveal_strlit("[SHEBANG]");
        reveal_strlit("[PREK_ARGS]");
        reveal_strlit("[PREK_PATH]");
    }
    let first = if windows {
        "#!/bin/sh"
    } else {
        "#!/usr/bin/env bash"
    };
    let template = concat2(HOOK_TEMPLATE_HEAD, HOOK_TEMPLATE_BODY);
    let step1 = replace_all(template.as_str(), "[SHEBANG]", first);
    let step2 = replace_all(step1.as_str(), "[PREK_ARGS]", join(args, " ").as_str());
    let quoted = concat3("\"", prek_path, "\"");
    replace_all(step2.as_str(), "[PREK_PATH]", quoted.as_str())
}

/// The message after installing: where the hook is, and with which
/// configuration or for which workspace project (with a hint on how to install
/// for the whole repository). `hook_path`, `config` and the paths in `project`
/// are shown as given; `hint` labels the hint.
pub open spec fn install_message(
    hook_path: Seq<char>,
    config: Option<Seq<char>>,
    project: Option<ProjectPlace>,
    hint: Seq<char>,
) -> Seq<char> {
    "prek installed at `"@ + hook_path + "`"@ + match config {
        Some(c) => " with specified config `"@ + c + "`"@,
        None => match project {
            Some(p) => if !p.is_git_root {
                " for workspace `"@ + p.shown@ + "`\n"@ + "\n"@ + hint + " this hook installed for `"@
                    + p.shown@ + "` only; run `prek install` from `"@ + p.git_root_shown@
                    + "` to install for the entire repo."@
            } else {
                Seq::empty()
            },
            None => Seq::empty(),
        },
    }
}

pub fn install_hint(hook_path: &str, config: Option<&str>, project: Option<&ProjectPlace>, hint: &str) -> (r: String)
    ensures
        r@ == install_message(
            hook_path@,
            match config {
                Some(c) => Some(c@),
                None => None,
            },
            match project {
                Some(p) => Some(*p),
                None => None,
            },
            hint@,
        ),
{
    let mut v: Vec<char> = Vec::new();
    push_str(&mut v, "prek installed at `");
    push_str(&mut v, hook_path);
    push_str(&mut v, "`");
    let ghost head = v@;
    match config {
        Some(c) => {
            push_str(&mut v, " with specified config `");
            push_str(&mut v, c);
            push_str(&mut v, "`");
            proof {
                assert(v@ =~= head + (" with specified config `"@ + c@ + "`"@));
            }
        },
        None => match project {
            Some(p) => {
                if !p.is_git_root {
                    push_str(&mut v, " for workspace `");
                    push_str(&mut v, p.shown.as_str());
                    push_str(&mut v, "`\n");
                    push_str(&mut v, "\n");
                    push_str(&mut v, hint);
                    push_str(&mut v, " this hook installed for `");
                    push_str(&mut v, p.shown.as_str());
                    push_str(&mut v, "` only; run `prek install` from `");
                    push_str(&mut v, p.git_root_shown.as_str());
                    push_str(&mut v, "` to install for the entire repo.");
                    proof {
                        assert(v@ =~= head + (" for workspace `"@ + p.shown@ + "`\n"@ + "\n"@ + hint@
                            + " this hook installed for `"@ + p.shown@
                            + "` only; run `prek install` from `"@ + p.git_root_shown@
                            + "` to install for the entire repo."@));
                    }
                } else {
                    proof {
                        assert(v@ =~= head + Seq::<char>::empty());
                    }
                }
            },
            None => {
                proof {
                    assert(v@ =~= head + Seq::<char>::empty());
                }
            },
        },
    }
    string_of(v.as_slice())
}

/// The warning when skip selectors come from an environment variable, which
/// the installed hook does not keep.
pub fn ignored_skip_env_warning(var: &str) -> (r: String)
    ensures
        r@ == "Skip selectors from environment variables `"@ + var@
            + "` are ignored during installing hooks."@,
{
    concat3(
        "Skip selectors from environment variables `",
        var,
        "` are ignored during installing hooks.",
    )
}

/// What `prek uninstall` does for one hook type.
#[derive(Debug, PartialEq, Eq, Structural)]
pub enum Uninstall {
    /// No hook is installed: say so and skip it.
    Missing,
    /// The hook is another tool's: say so and leave it.
    NotOurs,
    /// Remove prek's hook (and put a kept `.legacy` hook back).
    Remove,
}

/// What `prek uninstall` does with a hook that exists (`exists`) or not, and is
/// prek's own (`ours`) or not.
pub open spec fn uninstall_choice(exists: bool, ours: bool) -> Uninstall {
    if !exists {
        Uninstall::Missing
    } else if !ours {
        Uninstall::NotOurs
    } else {
        Uninstall::Remove
    }
}

pub fn uninstall_action(exists: bool, ours: bool) -> (a: Uninstall)
    ensures
        a == uninstall_choice(exists, ours),
{
    if !exists {
        Uninstall::Missing
    } else if !ours {
        Uninstall::NotOurs
    } else {
        Uninstall::Remove
    }
}

/// The message for a hook type that `prek uninstall` skips or removes;
/// `path` is the hook's path and `name` the hook type, as shown.
pub open spec fn uninstall_message(a: Uninstall, path: Seq<char>, name: Seq<char>) -> Seq<char> {
    match a {
        Uninstall::Missing => "`"@ + path + "` does not exist, skipping."@,
        Uninstall::NotOurs => "`"@ + path + "` is not managed by prek, skipping."@,
        Uninstall::Remove => "Uninstalled `"@ + name + "`"@,
    }
}

pub fn uninstall_text(a: &Uninstall, path: &str, name: &str) -> (r: String)
    ensures
        r@ == uninstall_message(*a, path@, name@),
{
    match a {
        Uninstall::Missing => concat3("`", path, "` does not exist, skipping."),
        Uninstall::NotOurs => concat3("`", path, "` is not managed by prek, skipping."),
        Uninstall::Remove => concat3("Uninstalled `", name, "`"),
    }
}

/// Whether `git config init.templateDir` (as printed, trimmed) fails to name
/// the template directory, so that a warning is due.
pub fn template_dir_warning(configured: &str, same_file: bool, directory: &str) -> (r: Option<String>)
    ensures
        match r {
            Some(m) => (configured@.len() == 0 || !same_file) && m@
                == "git config `init.templateDir` not set to the target directory, try `git config --global init.templateDir '"@
                + directory@ + "'`"@,
            None => configured@.len() > 0 && same_file,
        },
{
    if configured.is_empty() || !same_file {
        Some(concat3(
            "git config `init.templateDir` not set to the target directory, try `git config --global init.templateDir '",
            directory,
            "'`",
        ))
    } else {
        None
    }
}

proof fn lemma_replaced_after_plain_prefix(p: Seq<char>, q: Seq<char>, from: Seq<char>, to: Seq<char>)
    requires
        from.len() > 0,
        forall|i: int| 0 <= i < p.len() ==> p[i] != from[0],
    ensures
        replaced(p + q, from, to) == p + replaced(q, from, to),
    decreases p.len(),
{
    if p.len() == 0 {
        assert(p + q =~= q);
        assert(p + replaced(q, from, to) =~= replaced(q, from, to));
    } else {
        let s = p + q;
        assert(s[0] == p[0]);
        if from.len() <= s.len() {
            assert(s.take(from.len() as int)[0] == s[0]);
        }
        assert(s.drop_first() =~= p.drop_first() + q);
        lemma_replaced_after_plain_prefix(p.drop_first(), q, from, to);
        assert(seq![s[0]] + (p.drop_first() + replaced(q, from, to)) =~= p + replaced(q, from, to));
    }
}

/// A script that `prek install` writes is one `prek uninstall` recognises as
/// its own: it holds prek's mark, whatever the arguments and the path of prek.
pub proof fn installed_script_is_ours(windows: bool, args: Seq<Seq<char>>, prek_path: Seq<char>)
    ensures
        contains_text(hook_script_text(windows, args, prek_path), CURRENT_HASH@),
{
    reveal_strlit("[SHEBANG]
# File generated by prek: https://github.com/j178/prek
# ID: 182c10f181da4464a3eec51b83331688

ARGS=(");
    reveal_strlit("[SHEBANG]");
    reveal_strlit("[PREK_ARGS]");
    reveal_strlit("[PREK_PATH]");
    reveal_strlit("#!/bin/sh");
    reveal_strlit("#!/usr/bin/env bash");
    reveal_strlit("182c10f181da4464a3eec51b83331688");
    let head = HOOK_TEMPLATE_HEAD@;
    let body = HOOK_TEMPLATE_BODY@;
    let t1 = head.skip(9);
    let sb = shebang(windows);
    assert(head =~= "[SHEBANG]"@ + t1);
    assert forall|i: int| 0 <= i < t1.len() implies t1[i] != '[' by {
        assert(t1[i] == head[i + 9]);
    }
    assert forall|i: int| 0 <= i < sb.len() implies sb[i] != '[' by {}
    // The shebang.
    let template = hook_template();
    assert(template =~= "[SHEBANG]"@ + (t1 + body));
    assert(template.take(9) =~= "[SHEBANG]"@);
    assert(template.skip(9) =~= t1 + body);
    let step1 = replaced(template, "[SHEBANG]"@, sb);
    lemma_replaced_after_plain_prefix(t1, body, "[SHEBANG]"@, sb);
    assert(step1 == sb + (t1 + replaced(body, "[SHEBANG]"@, sb)));
    let plain = sb + t1;
    assert forall|i: int| 0 <= i < plain.len() implies plain[i] != '[' by {
        if i < sb.len() {
            assert(plain[i] == sb[i]);
        } else {
            assert(plain[i] == t1[i - sb.len()]);
        }
    }
    let rest1 = replaced(body, "[SHEBANG]"@, sb);
    assert(step1 =~= plain + rest1);
    // The arguments.
    let joined = crate::text::join_seq(args, " "@);
    lemma_replaced_after_plain_prefix(plain, rest1, "[PREK_ARGS]"@, joined);
    let rest2 = replaced(rest1, "[PREK_ARGS]"@, joined);
    // The path of prek.
    let quoted = "\""@ + prek_path + "\""@;
    lemma_replaced_after_plain_prefix(plain, rest2, "[PREK_PATH]"@, quoted);
    let out = hook_script_text(windows, args, prek_path);
    assert(out == plain + replaced(rest2, "[PREK_PATH]"@, quoted));
    // The mark sits in the head, after the shebang.
    let k: int = sb.len() as int + 62;
    assert(head.subrange(71, 103) =~= CURRENT_HASH@);
    assert(out.subrange(k, k + 32) =~= CURRENT_HASH@) by {
        assert forall|i: int| 0 <= i < 32 implies out.subrange(k, k + 32)[i] == CURRENT_HASH@[i] by {
            assert(out[k + i] == plain[k + i]);
            assert(plain[k + i] == t1[62 + i]);
            assert(t1[62 + i] == head[71 + i]);
        }
    }
    assert(occurs_at(out, CURRENT_HASH@, k));
}

/// The hook files (path to content) after installing the script `script` at
/// `hook` with the action `a`: another tool's hook is first kept as
/// `<hook>.legacy`.
pub open spec fn files_after_install(
    files: Map<Seq<char>, Seq<char>>,
    hook: Seq<char>,
    a: ExistingHook,
    script: Seq<char>,
) -> Map<Seq<char>, Seq<char>> {
    match a {
        ExistingHook::MoveToLegacy => files.insert(hook + ".legacy"@, files[hook]).insert(hook, script),
        _ => files.insert(hook, script),
    }
}

/// The hook files after uninstalling the hook at `hook` with the action `a`:
/// prek's hook is removed and a kept `<hook>.legacy` put back in its place.
pub open spec fn files_after_uninstall(files: Map<Seq<char>, Seq<char>>, hook: Seq<char>, a: Uninstall) -> Map<
    Seq<char>,
    Seq<char>,
> {
    let legacy = hook + ".legacy"@;
    match a {
        Uninstall::Remove => if files.contains_key(legacy) {
            files.insert(hook, files[legacy]).remove(legacy)
        } else {
            files.remove(hook)
        },
        _ => files,
    }
}

/// Installing over another tool's hook (without `--overwrite`) and then
/// uninstalling gives back the files as they were: the other hook is in its
/// place again and no `.legacy` file is left.
pub proof fn uninstall_undoes_install_over_foreign_hook(
    files: Map<Seq<char>, Seq<char>>,
    hook: Seq<char>,
    windows: bool,
    args: Seq<Seq<char>>,
    prek_path: Seq<char>,
)
    requires
        files.contains_key(hook),
        !contains_text(files[hook], CURRENT_HASH@),
        !files.contains_key(hook + ".legacy"@),
    ensures
        ({
            let script = hook_script_text(windows, args, prek_path);
            let installed = files_after_install(
                files,
                hook,
                existing_hook_choice(true, false, contains_text(files[hook], CURRENT_HASH@)),
                script,
            );
            files_after_uninstall(
                installed,
                hook,
                uninstall_choice(installed.contains_key(hook), contains_text(installed[hook], CURRENT_HASH@)),
            ) == files
        }),
{
    let legacy = hook + ".legacy"@;
    assert(legacy.len() != hook.len());
    assert(legacy != hook);
    let script = hook_script_text(windows, args, prek_path);
    installed_script_is_ours(windows, args, prek_path);
    let installed = files.insert(legacy, files[hook]).insert(hook, script);
    assert(installed[hook] == script);
    assert(installed.contains_key(legacy));
    assert(installed.insert(hook, installed[legacy]).remove(legacy) =~= files);
}

} // verus!
