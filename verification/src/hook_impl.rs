//! What the installed git hook script does when git runs it: check the
//! arguments git passes, and turn them into the arguments of a `run`.
use vstd::prelude::*;

use crate::cli::RunArgs;
use crate::config::HookType;
use crate::text::{
    chars_of, concat3, decimal, join, join_seq, push_decimal, push_str, str_eq, string_of, strs_view,
};

verus! {

pub assume_specification<Idx>[ std::ops::RangeInclusive::<Idx>::start ](
    r: &std::ops::RangeInclusive<Idx>,
) -> (s: &Idx)
    ensures
        *s == r@.start,
;

pub assume_specification<Idx>[ std::ops::RangeInclusive::<Idx>::end ](
    r: &std::ops::RangeInclusive<Idx>,
) -> (e: &Idx)
    ensures
        *e == r@.end,
;

/// How many arguments a hook expects, in words.
pub open spec fn expected_args_text(s: nat, e: nat) -> Seq<char> {
    if s == 0 && e == 0 {
        "no arguments"@
    } else if s == 1 && e == 1 {
        "exactly 1 argument"@
    } else if s == e {
        "exactly "@ + decimal(s) + " arguments"@
    } else if s == 0 {
        "up to "@ + decimal(e) + " arguments"@
    } else if e == usize::MAX {
        "at least "@ + decimal(s) + " arguments"@
    } else {
        "between "@ + decimal(s) + " and "@ + decimal(e) + " arguments"@
    }
}

pub fn format_expected_args(range: std::ops::RangeInclusive<usize>) -> (r: String)
    ensures
        r@ == expected_args_text(range@.start as nat, range@.end as nat),
{
    let start = *range.start();
    let end = *range.end();
    let mut v: Vec<char> = Vec::new();
    if start == 0 && end == 0 {
        push_str(&mut v, "no arguments");
    } else if start == 1 && end == 1 {
        push_str(&mut v, "exactly 1 argument");
    } else if start == end {
        push_str(&mut v, "exactly ");
        push_decimal(&mut v, start as u64);
        push_str(&mut v, " arguments");
    } else if start == 0 {
        push_str(&mut v, "up to ");
        push_decimal(&mut v, end as u64);
        push_str(&mut v, " arguments");
    } else if end == usize::MAX {
        push_str(&mut v, "at least ");
        push_decimal(&mut v, start as u64);
        push_str(&mut v, " arguments");
    } else {
        push_str(&mut v, "between ");
        push_decimal(&mut v, start as u64);
        push_str(&mut v, " and ");
        push_decimal(&mut v, end as u64);
        push_str(&mut v, " arguments");
    }
    string_of(v.as_slice())
}

/// How many arguments were received, in words.
pub open spec fn received_args_text(n: nat) -> Seq<char> {
    if n == 0 {
        "no arguments"@
    } else if n == 1 {
        "1 argument"@
    } else {
        decimal(n) + " arguments"@
    }
}

pub fn format_received_args(received: usize) -> (r: String)
    ensures
        r@ == received_args_text(received as nat),
{
    if received == 0 {
        "no arguments".to_owned()
    } else if received == 1 {
        "1 argument".to_owned()
    } else {
        let mut v: Vec<char> = Vec::new();
        push_decimal(&mut v, received as u64);
        push_str(&mut v, " arguments");
        string_of(v.as_slice())
    }
}

/// The received arguments quoted after a colon, or nothing when there are none.
pub open spec fn argument_dump_text(args: Seq<Seq<char>>) -> Seq<char> {
    if args.len() == 0 {
        Seq::empty()
    } else {
        ": `"@ + join_seq(args, " "@) + "`"@
    }
}

pub fn format_argument_dump(args: &Vec<String>) -> (r: String)
    ensures
        r@ == argument_dump_text(strs_view(args@)),
{
    if args.len() == 0 {
        String::new()
    } else {
        concat3(": `", join(args, " ").as_str(), "`")
    }
}

/// The message when a hook of type `h` receives the arguments `args`, which
/// are not as many as it expects.
pub open spec fn wrong_args_message(h: HookType, args: Seq<Seq<char>>) -> Seq<char> {
    "hook `"@ + h.name() + "` expects "@ + expected_args_text(
        h.arg_bounds().0 as nat,
        h.arg_bounds().1 as nat,
    ) + " but received "@ + received_args_text(args.len()) + argument_dump_text(args)
}

/// Checks that git passed a hook as many arguments as its type expects.
pub fn check_hook_args(hook_type: HookType, args: &Vec<String>) -> (r: Result<(), String>)
    ensures
        match r {
            Ok(()) => hook_type.arg_bounds().0 <= args@.len() <= hook_type.arg_bounds().1,
            Err(m) => !(hook_type.arg_bounds().0 <= args@.len() <= hook_type.arg_bounds().1) && m@
                == wrong_args_message(hook_type, strs_view(args@)),
        },
{
    let range = hook_type.num_args();
    let n = args.len();
    if *range.start() <= n && n <= *range.end() {
        return Ok(());
    }
    let mut v: Vec<char> = Vec::new();
    push_str(&mut v, "hook `");
    push_str(&mut v, hook_type.as_str());
    push_str(&mut v, "` expects ");
    push_str(&mut v, format_expected_args(range).as_str());
    push_str(&mut v, " but received ");
    push_str(&mut v, format_received_args(n).as_str());
    push_str(&mut v, format_argument_dump(args).as_str());
    proof {
        assert(strs_view(args@).len() == args@.len());
    }
    Err(string_of(v.as_slice()))
}

/// The version of the hook script. Increment this when the script changes in
/// a way that requires re-installation.
pub const CUR_SCRIPT_VERSION: usize = 4;

/// The warning for a hook script of another version than the current one;
/// scripts that predate versioning count as version 1.
pub open spec fn outdated_script_message(h: HookType, version: Option<usize>) -> Option<Seq<char>> {
    if version == Some(CUR_SCRIPT_VERSION) {
        None
    } else {
        Some(
            "The installed hook script `"@ + h.name() + "` is outdated (version: "@ + decimal(
                (match version {
                    Some(v) => v,
                    None => 1usize,
                }) as nat,
            ) + ", expected: "@ + decimal(CUR_SCRIPT_VERSION as nat)
                + "). Please reinstall the hooks with `prek install`."@,
        )
    }
}

pub fn outdated_script_warning(hook_type: HookType, script_version: Option<usize>) -> (r: Option<
    String,
>)
    ensures
        match r {
            Some(m) => outdated_script_message(hook_type, script_version) == Some(m@),
            None => outdated_script_message(hook_type, script_version) is None,
        },
{
    if script_version == Some(CUR_SCRIPT_VERSION) {
        return None;
    }
    let shown: usize = match script_version {
        Some(v) => v,
        None => 1,
    };
    let mut v: Vec<char> = Vec::new();
    push_str(&mut v, "The installed hook script `");
    push_str(&mut v, hook_type.as_str());
    push_str(&mut v, "` is outdated (version: ");
    push_decimal(&mut v, shown as u64);
    push_str(&mut v, ", expected: ");
    push_decimal(&mut v, CUR_SCRIPT_VERSION as u64);
    push_str(&mut v, "). Please reinstall the hooks with `prek install`.");
    Some(string_of(v.as_slice()))
}

/// What git says about a push, read from the hook's standard input.
#[derive(Debug)]
pub struct PushInfo {
    pub from_ref: Option<String>,
    pub to_ref: Option<String>,
    pub all_files: bool,
    pub remote_branch: Option<String>,
    pub local_branch: Option<String>,
}

/// The arguments of the `run` that a hook of type `h` makes from the
/// arguments git passed (and, for `pre-push`, what was found of the push).
pub open spec fn hook_run_args(
    h: HookType,
    args: Seq<Seq<char>>,
    push: Option<PushInfo>,
    r: Option<RunArgs>,
) -> bool {
    match h {
        HookType::PrePush => match push {
            None => r is None,
            Some(p) => r matches Some(a) && a.is_default_except_refs_and_extra() && opt_str(
                a.from_ref,
            ) == opt_str(p.from_ref) && opt_str(a.to_ref) == opt_str(p.to_ref) && a.all_files
                == p.all_files && opt_str(a.extra.remote_name) == Some(args[0]) && opt_str(
                a.extra.remote_url,
            ) == Some(args[1]) && opt_str(a.extra.remote_branch) == opt_str(p.remote_branch)
                && opt_str(a.extra.local_branch) == opt_str(p.local_branch) && a.extra.only_set(
                set!["remote_name"@, "remote_url"@, "remote_branch"@, "local_branch"@],
            ),
        },
        HookType::CommitMsg => r matches Some(a) && a.is_default_except_refs_and_extra()
            && a.no_refs() && opt_str(a.extra.commit_msg_filename) == Some(args[0])
            && a.extra.only_set(set!["commit_msg_filename"@]),
        HookType::PrepareCommitMsg => r matches Some(a) && a.is_default_except_refs_and_extra()
            && a.no_refs() && opt_str(a.extra.commit_msg_filename) == Some(args[0]) && opt_str(
            a.extra.prepare_commit_message_source,
        ) == (if args.len() > 1 {
            Some(args[1])
        } else {
            None
        }) && opt_str(a.extra.commit_object_name) == (if args.len() > 2 {
            Some(args[2])
        } else {
            None
        }) && a.extra.only_set(
            set!["commit_msg_filename"@, "prepare_commit_message_source"@, "commit_object_name"@],
        ),
        HookType::PostCheckout => r matches Some(a) && a.is_default_except_refs_and_extra()
            && opt_str(a.from_ref) == Some(args[0]) && opt_str(a.to_ref) == Some(args[1])
            && !a.all_files && opt_str(a.extra.checkout_type) == Some(args[2]) && a.extra.only_set(
            set!["checkout_type"@],
        ),
        HookType::PostMerge => r matches Some(a) && a.is_default_except_refs_and_extra()
            && a.no_refs() && a.extra.is_squash_merge == (args[0] == "1"@) && a.extra.only_set(
            set!["is_squash_merge"@],
        ),
        HookType::PostRewrite => r matches Some(a) && a.is_default_except_refs_and_extra()
            && a.no_refs() && opt_str(a.extra.rewrite_command) == Some(args[0])
            && a.extra.only_set(set!["rewrite_command"@]),
        HookType::PreRebase => r matches Some(a) && a.is_default_except_refs_and_extra()
            && a.no_refs() && opt_str(a.extra.pre_rebase_upstream) == Some(args[0]) && opt_str(
            a.extra.pre_rebase_branch,
        ) == (if args.len() > 1 {
            Some(args[1])
        } else {
            None
        }) && a.extra.only_set(set!["pre_rebase_upstream"@, "pre_rebase_branch"@]),
        HookType::PostCommit | HookType::PreMergeCommit | HookType::PreCommit => r matches Some(a)
            && a.is_default_except_refs_and_extra() && a.no_refs() && a.extra.only_set(
            Set::empty(),
        ),
    }
}

/// The characters of an optional string.
pub open spec fn opt_str(o: Option<String>) -> Option<Seq<char>> {
    match o {
        Some(s) => Some(s@),
        None => None,
    }
}

/// The arguments of the `run` for a hook of type `hook_type` called by git with
/// `args`; `push` is what was found of a push (for `pre-push` only: `None` when
/// there is nothing to push, and then nothing runs).
pub fn to_run_args(hook_type: HookType, args: &Vec<String>, push: Option<PushInfo>) -> (r: Option<
    RunArgs,
>)
    requires
        hook_type.arg_bounds().0 <= args@.len() <= hook_type.arg_bounds().1,
    ensures
        hook_run_args(hook_type, strs_view(args@), push, r),
{
    let mut run_args = RunArgs::default();
    proof {
        assert(strs_view(args@).len() == args@.len());
    }
    match hook_type {
        HookType::PrePush => {
            run_args.extra.remote_name = Some(args[0].clone());
            run_args.extra.remote_url = Some(args[1].clone());
            if let Some(push_info) = push {
                run_args.from_ref = push_info.from_ref;
                run_args.to_ref = push_info.to_ref;
                run_args.all_files = push_info.all_files;
                run_args.extra.remote_branch = push_info.remote_branch;
                run_args.extra.local_branch = push_info.local_branch;
            } else {
                // Nothing to push
                return None;
            }
        },
        HookType::CommitMsg => {
            run_args.extra.commit_msg_filename = Some(args[0].clone());
        },
        HookType::PrepareCommitMsg => {
            run_args.extra.commit_msg_filename = Some(args[0].clone());
            if args.len() > 1 {
                run_args.extra.prepare_commit_message_source = Some(args[1].clone());
            }
            if args.len() > 2 {
                run_args.extra.commit_object_name = Some(args[2].clone());
            }
        },
        HookType::PostCheckout => {
            run_args.from_ref = Some(args[0].clone());
            run_args.to_ref = Some(args[1].clone());
            run_args.extra.checkout_type = Some(args[2].clone());
        },
        HookType::PostMerge => {
            run_args.extra.is_squash_merge = str_eq(args[0].as_str(), "1");
        },
        HookType::PostRewrite => {
            run_args.extra.rewrite_command = Some(args[0].clone());
        },
        HookType::PreRebase => {
            run_args.extra.pre_rebase_upstream = Some(args[0].clone());
            if args.len() > 1 {
                run_args.extra.pre_rebase_branch = Some(args[1].clone());
            }
        },
        HookType::PostCommit | HookType::PreMergeCommit | HookType::PreCommit => {},
    }
    Some(run_args)
}

/// The position of the last space of `s` before position `end`, or -1.
pub open spec fn last_space_before(s: Seq<char>, end: int) -> int
    decreases end,
{
    if end <= 0 {
        -1
    } else if s[end - 1] == ' ' {
        end - 1
    } else {
        last_space_before(s, end - 1)
    }
}

/// The four fields of a line git writes to a `pre-push` hook,
/// `<local ref> <local sha> <remote ref> <remote sha>`, split at the last three
/// spaces (`str::rsplitn(4, ' ')`); `None` when there are fewer than three spaces.
pub open spec fn push_line_fields(l: Seq<char>) -> Option<(Seq<char>, Seq<char>, Seq<char>, Seq<char>)> {
    let p3 = last_space_before(l, l.len() as int);
    let p2 = last_space_before(l, p3);
    let p1 = last_space_before(l, p2);
    if p3 >= 0 && p2 >= 0 && p1 >= 0 {
        Some((l.take(p1), l.subrange(p1 + 1, p2), l.subrange(p2 + 1, p3), l.skip(p3 + 1)))
    } else {
        None
    }
}

/// Whether every character of `s` is `0` (true of the empty text).
pub open spec fn all_zeros(s: Seq<char>) -> bool {
    forall|i: int| 0 <= i < s.len() ==> s[i] == '0'
}

/// One line of what git writes to a `pre-push` hook.
#[derive(Debug)]
pub struct PushLine {
    pub local_branch: String,
    pub local_sha: String,
    pub remote_branch: String,
    pub remote_sha: String,
}

proof fn lemma_last_space_before(s: Seq<char>, end: int, p: int)
    requires
        -1 <= p < end <= s.len(),
        p >= 0 ==> s[p] == ' ',
        forall|i: int| p < i < end ==> s[i] != ' ',
    ensures
        last_space_before(s, end) == p,
    decreases end,
{
    if end > 0 && s[end - 1] != ' ' {
        lemma_last_space_before(s, end - 1, p);
    }
}

fn last_space(v: &Vec<char>, end: usize) -> (r: Option<usize>)
    requires
        end <= v@.len(),
    ensures
        match r {
            Some(p) => p < end && last_space_before(v@, end as int) == p as int,
            None => last_space_before(v@, end as int) == -1,
        },
{
    let mut i = end;
    while i > 0
        invariant
            i <= end <= v@.len(),
            forall|j: int| i <= j < end ==> v@[j] != ' ',
        decreases i,
    {
        if v[i - 1] == ' ' {
            proof {
                lemma_last_space_before(v@, end as int, i - 1);
            }
            return Some(i - 1);
        }
        i = i - 1;
    }
    proof {
        lemma_last_space_before(v@, end as int, -1);
    }
    None
}

fn string_of_range(v: &Vec<char>, from: usize, to: usize) -> (s: String)
    requires
        from <= to <= v@.len(),
    ensures
        s@ == v@.subrange(from as int, to as int),
{
    let mut out: Vec<char> = Vec::new();
    let mut k = from;
    while k < to
        invariant
            from <= k <= to,
            to <= v@.len(),
            out@ == v@.subrange(from as int, k as int),
        decreases to - k,
    {
        out.push(v[k]);
        proof {
            assert(out@ =~= v@.subrange(from as int, k + 1));
        }
        k = k + 1;
    }
    string_of(out.as_slice())
}

/// Splits a line that git writes to a `pre-push` hook into its four fields.
pub fn parse_push_line(line: &str) -> (r: Option<PushLine>)
    ensures
        match r {
            Some(p) => push_line_fields(line@) == Some(
                (p.local_branch@, p.local_sha@, p.remote_branch@, p.remote_sha@),
            ),
            None => push_line_fields(line@) is None,
        },
{
    let v = chars_of(line);
    let n = v.len();
    let p3 = match last_space(&v, n) {
        Some(p) => p,
        None => return None,
    };
    let p2 = match last_space(&v, p3) {
        Some(p) => p,
        None => return None,
    };
    let p1 = match last_space(&v, p2) {
        Some(p) => p,
        None => return None,
    };
    let local_branch = string_of_range(&v, 0, p1);
    let local_sha = string_of_range(&v, p1 + 1, p2);
    let remote_branch = string_of_range(&v, p2 + 1, p3);
    let remote_sha = string_of_range(&v, p3 + 1, n);
    proof {
        assert(v@.take(p1 as int) =~= v@.subrange(0, p1 as int));
        assert(v@.skip(p3 + 1) =~= v@.subrange(p3 + 1, n as int));
    }
    Some(PushLine { local_branch, local_sha, remote_branch, remote_sha })
}

/// Whether every character of `s` is `0`.
pub fn is_all_zeros(s: &str) -> (b: bool)
    ensures
        b == all_zeros(s@),
{
    let v = chars_of(s);
    let mut i: usize = 0;
    while i < v.len()
        invariant
            i <= v@.len(),
            v@ == s@,
            forall|j: int| 0 <= j < i ==> v@[j] == '0',
        decreases v.len() - i,
    {
        if v[i] != '0' {
            return false;
        }
        i = i + 1;
    }
    true
}

/// What git is asked while working out what a push sends.
#[derive(Debug)]
pub enum PushQuery {
    /// Does the commit exist locally?
    RevExists { rev: String },
    /// The commits of `local_sha` that the remote does not have, oldest first.
    AncestorsNotInRemote { local_sha: String, remote_name: String },
    /// The root commits of `local_sha`; `first_ancestor` is kept for the next step.
    RootCommits { local_sha: String, first_ancestor: String },
    /// The parent of `commit`.
    ParentCommit { commit: String },
}

/// What is known about the current line: nothing yet, or the answer to the last query.
#[derive(Debug)]
pub enum PushState {
    Start,
    RemoteRevExists(bool),
    Ancestors(Vec<String>),
    Roots { first_ancestor: String, roots: Vec<String> },
    Parent(Option<String>),
}

/// The next step: ask git, report what is pushed, or go on with the next line.
#[derive(Debug)]
pub enum PushAction {
    Ask(PushQuery),
    Push(PushInfo),
    NextLine,
}

/// `p` pushes from `from` to `to` of the line `l`.
pub open spec fn push_info_of(
    p: PushInfo,
    l: PushLine,
    from: Option<Seq<char>>,
    all_files: bool,
) -> bool {
    &&& opt_str(p.from_ref) == from
    &&& opt_str(p.to_ref) == Some(l.local_sha@)
    &&& p.all_files == all_files
    &&& opt_str(p.remote_branch) == Some(l.remote_branch@)
    &&& opt_str(p.local_branch) == Some(l.local_branch@)
}

/// `a` is the step for the line `l` when the answers so far are `state`.
pub open spec fn push_step_spec(l: PushLine, remote_name: Seq<char>, state: PushState, a: PushAction) -> bool {
    let ask_ancestors = a matches PushAction::Ask(PushQuery::AncestorsNotInRemote { local_sha, remote_name: rn })
        && local_sha@ == l.local_sha@ && rn@ == remote_name;
    match state {
        PushState::Start => if all_zeros(l.local_sha@) {
            a is NextLine
        } else if !all_zeros(l.remote_sha@) {
            a matches PushAction::Ask(PushQuery::RevExists { rev }) && rev@ == l.remote_sha@
        } else {
            ask_ancestors
        },
        PushState::RemoteRevExists(exists) => if exists {
            a matches PushAction::Push(p) && push_info_of(p, l, Some(l.remote_sha@), false)
        } else {
            ask_ancestors
        },
        PushState::Ancestors(v) => if v@.len() == 0 {
            a is NextLine
        } else {
            a matches PushAction::Ask(PushQuery::RootCommits { local_sha, first_ancestor })
                && local_sha@ == l.local_sha@ && first_ancestor@ == v@[0]@
        },
        PushState::Roots { first_ancestor, roots } => if strs_view(roots@).contains(first_ancestor@) {
            a matches PushAction::Push(p) && push_info_of(p, l, None, true)
        } else {
            a matches PushAction::Ask(PushQuery::ParentCommit { commit }) && commit@ == first_ancestor@
        },
        PushState::Parent(parent) => match parent {
            Some(source) => a matches PushAction::Push(p) && push_info_of(p, l, Some(source@), false),
            None => a is NextLine,
        },
    }
}

fn contains_str(items: &Vec<String>, s: &str) -> (b: bool)
    ensures
        b == strs_view(items@).contains(s@),
{
    let mut i: usize = 0;
    while i < items.len()
        invariant
            i <= items@.len(),
            forall|k: int| 0 <= k < i ==> items@[k]@ != s@,
        decreases items.len() - i,
    {
        if str_eq(items[i].as_str(), s) {
            proof {
                assert(strs_view(items@)[i as int] == s@);
            }
            return true;
        }
        i = i + 1;
    }
    proof {
        if strs_view(items@).contains(s@) {
            let k = choose|k: int| 0 <= k < strs_view(items@).len() && strs_view(items@)[k] == s@;
            assert(items@[k]@ == s@);
        }
    }
    false
}

/// Working out what a push sends, one line of git's input at a time: given
/// what git answered so far for the line `line`, the next thing to ask it, or
/// what is pushed, or that this line pushes nothing and the next one is due.
pub fn push_step(line: &PushLine, remote_name: &str, state: PushState) -> (a: PushAction)
    ensures
        push_step_spec(*line, remote_name@, state, a),
{
    let ask_ancestors = PushAction::Ask(PushQuery::AncestorsNotInRemote {
        local_sha: line.local_sha.clone(),
        remote_name: remote_name.to_string(),
    });
    match state {
        PushState::Start => {
            if is_all_zeros(line.local_sha.as_str()) {
                PushAction::NextLine
            } else if !is_all_zeros(line.remote_sha.as_str()) {
                PushAction::Ask(PushQuery::RevExists { rev: line.remote_sha.clone() })
            } else {
                ask_ancestors
            }
        },
        PushState::RemoteRevExists(exists) => {
            if exists {
                PushAction::Push(PushInfo {
                    from_ref: Some(line.remote_sha.clone()),
                    to_ref: Some(line.local_sha.clone()),
                    all_files: false,
                    remote_branch: Some(line.remote_branch.clone()),
                    local_branch: Some(line.local_branch.clone()),
                })
            } else {
                ask_ancestors
            }
        },
        PushState::Ancestors(v) => {
            if v.len() == 0 {
                PushAction::NextLine
            } else {
                PushAction::Ask(PushQuery::RootCommits {
                    local_sha: line.local_sha.clone(),
                    first_ancestor: v[0].clone(),
                })
            }
        },
        PushState::Roots { first_ancestor, roots } => {
            if contains_str(&roots, first_ancestor.as_str()) {
                PushAction::Push(PushInfo {
                    from_ref: None,
                    to_ref: Some(line.local_sha.clone()),
                    all_files: true,
                    remote_branch: Some(line.remote_branch.clone()),
                    local_branch: Some(line.local_branch.clone()),
                })
            } else {
                PushAction::Ask(PushQuery::ParentCommit { commit: first_ancestor })
            }
        },
        PushState::Parent(parent) => match parent {
            Some(source) => PushAction::Push(PushInfo {
                from_ref: Some(source),
                to_ref: Some(line.local_sha.clone()),
                all_files: false,
                remote_branch: Some(line.remote_branch.clone()),
                local_branch: Some(line.local_branch.clone()),
            }),
            None => PushAction::NextLine,
        },
    }
}

proof fn lemma_last_space_props(s: Seq<char>, end: int)
    requires
        0 <= end <= s.len(),
    ensures
        -1 <= last_space_before(s, end) < end,
        last_space_before(s, end) >= 0 ==> s[last_space_before(s, end)] == ' ',
        forall|i: int| last_space_before(s, end) < i < end ==> s[i] != ' ',
    decreases end,
{
    if end > 0 && s[end - 1] != ' ' {
        lemma_last_space_props(s, end - 1);
    }
}

/// The four fields of a `pre-push` line, joined again with single spaces,
/// give back the line, and only the first field can hold a space.
pub proof fn push_line_fields_rejoin(l: Seq<char>)
    requires
        push_line_fields(l) is Some,
    ensures
        ({
            let (lb, ls, rb, rs) = push_line_fields(l).unwrap();
            &&& lb + " "@ + ls + " "@ + rb + " "@ + rs == l
            &&& !ls.contains(' ')
            &&& !rb.contains(' ')
            &&& !rs.contains(' ')
        }),
{
    reveal_strlit(" ");
    let p3 = last_space_before(l, l.len() as int);
    lemma_last_space_props(l, l.len() as int);
    let p2 = last_space_before(l, p3);
    lemma_last_space_props(l, p3);
    let p1 = last_space_before(l, p2);
    lemma_last_space_props(l, p2);
    let (lb, ls, rb, rs) = push_line_fields(l).unwrap();
    assert(lb + " "@ + ls + " "@ + rb + " "@ + rs =~= l);
    assert forall|c: char| #[trigger] ls.contains(c) implies c != ' ' by {
        let i = choose|i: int| 0 <= i < ls.len() && ls[i] == c;
        assert(l[p1 + 1 + i] == c);
    }
    assert forall|c: char| #[trigger] rb.contains(c) implies c != ' ' by {
        let i = choose|i: int| 0 <= i < rb.len() && rb[i] == c;
        assert(l[p2 + 1 + i] == c);
    }
    assert forall|c: char| #[trigger] rs.contains(c) implies c != ' ' by {
        let i = choose|i: int| 0 <= i < rs.len() && rs[i] == c;
        assert(l[p3 + 1 + i] == c);
    }
}


/// For a `pre-push` hook, what git says of the push reaches the run unchanged,
/// each field in the field of the same name: the refs, the branches, and the
/// remote's name and url from the hook's arguments.
pub proof fn pre_push_fields_reach_run_args(args: Seq<Seq<char>>, p: PushInfo, a: RunArgs)
    requires
        hook_run_args(HookType::PrePush, args, Some(p), Some(a)),
    ensures
        opt_str(a.extra.remote_branch) == opt_str(p.remote_branch),
        opt_str(a.extra.local_branch) == opt_str(p.local_branch),
        opt_str(a.from_ref) == opt_str(p.from_ref),
        opt_str(a.to_ref) == opt_str(p.to_ref),
        a.all_files == p.all_files,
        opt_str(a.extra.remote_name) == Some(args[0]),
        opt_str(a.extra.remote_url) == Some(args[1]),
{
}

} // verus!
