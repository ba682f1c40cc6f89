//! Command-line values shared by the commands.
use vstd::prelude::*;

use crate::config::Stage;

verus! {

/// How a command ended.
#[derive(Debug, Copy, Clone, PartialEq, Eq, Structural)]
pub enum ExitStatus {
    /// The command succeeded.
    Success,
    /// The command failed due to an error in the user input.
    Failure,
    /// The command failed with an unexpected error.
    Error,
    /// The command was interrupted.
    Interrupted,
    /// The command's exit status is propagated from an external command.
    External(u8),
}

impl ExitStatus {
    pub open spec fn code_of(self) -> u8 {
        match self {
            ExitStatus::Success => 0,
            ExitStatus::Failure => 1,
            ExitStatus::Error => 2,
            ExitStatus::Interrupted => 130,
            ExitStatus::External(code) => code,
        }
    }

    /// The process exit code.
    pub fn code(self) -> (c: u8)
        ensures
            c == self.code_of(),
    {
        match self {
            ExitStatus::Success => 0,
            ExitStatus::Failure => 1,
            ExitStatus::Error => 2,
            ExitStatus::Interrupted => 130,
            ExitStatus::External(code) => code,
        }
    }
}

/// Whether to use color in output.
#[derive(Debug, Copy, Clone, PartialEq, Eq, Structural)]
pub enum ColorChoice {
    /// Enables colored output only when the output is going to a terminal or TTY with support.
    Auto,
    /// Enables colored output regardless of the detected environment.
    Always,
    /// Disables colored output.
    Never,
}

/// The arguments of `cache size`.
#[derive(Debug, Copy, Clone)]
pub struct SizeArgs {
    /// Display the cache size in human-readable format (e.g., `1.2 GiB` instead of raw bytes).
    pub human: bool,
}

/// Arguments a git hook passes on to `run`.
#[derive(Debug)]
pub struct RunExtraArgs {
    pub remote_branch: Option<String>,
    pub local_branch: Option<String>,
    pub pre_rebase_upstream: Option<String>,
    pub pre_rebase_branch: Option<String>,
    pub commit_msg_filename: Option<String>,
    pub prepare_commit_message_source: Option<String>,
    pub commit_object_name: Option<String>,
    pub remote_name: Option<String>,
    pub remote_url: Option<String>,
    pub checkout_type: Option<String>,
    pub is_squash_merge: bool,
    pub rewrite_command: Option<String>,
}

impl RunExtraArgs {
    /// Every argument whose name is not in `names` is unset.
    pub open spec fn only_set(&self, names: Set<Seq<char>>) -> bool {
        &&& !names.contains("remote_branch"@) ==> self.remote_branch is None
        &&& !names.contains("local_branch"@) ==> self.local_branch is None
        &&& !names.contains("pre_rebase_upstream"@) ==> self.pre_rebase_upstream is None
        &&& !names.contains("pre_rebase_branch"@) ==> self.pre_rebase_branch is None
        &&& !names.contains("commit_msg_filename"@) ==> self.commit_msg_filename is None
        &&& !names.contains("prepare_commit_message_source"@)
            ==> self.prepare_commit_message_source is None
        &&& !names.contains("commit_object_name"@) ==> self.commit_object_name is None
        &&& !names.contains("remote_name"@) ==> self.remote_name is None
        &&& !names.contains("remote_url"@) ==> self.remote_url is None
        &&& !names.contains("checkout_type"@) ==> self.checkout_type is None
        &&& !names.contains("is_squash_merge"@) ==> !self.is_squash_merge
        &&& !names.contains("rewrite_command"@) ==> self.rewrite_command is None
    }
}

impl Default for RunExtraArgs {
    fn default() -> (r: RunExtraArgs)
        ensures
            r.only_set(Set::empty()),
    {
        RunExtraArgs {
            remote_branch: None,
            local_branch: None,
            pre_rebase_upstream: None,
            pre_rebase_branch: None,
            commit_msg_filename: None,
            prepare_commit_message_source: None,
            commit_object_name: None,
            remote_name: None,
            remote_url: None,
            checkout_type: None,
            is_squash_merge: false,
            rewrite_command: None,
        }
    }
}

/// The arguments of `run`.
#[derive(Debug)]
pub struct RunArgs {
    /// Include the specified hooks or projects.
    pub includes: Vec<String>,
    /// Skip the specified hooks or projects.
    pub skips: Vec<String>,
    /// Run on all files in the repo.
    pub all_files: bool,
    /// Specific filenames to run hooks on.
    pub files: Vec<String>,
    /// Run hooks on all files in the specified directories.
    pub directory: Vec<String>,
    /// The original ref in a `<from_ref>...<to_ref>` diff expression.
    pub from_ref: Option<String>,
    /// The destination ref in a `from_ref...to_ref` diff expression.
    pub to_ref: Option<String>,
    /// Run hooks against the last commit.
    pub last_commit: bool,
    /// The stage during which the hook is fired.
    pub hook_stage: Option<Stage>,
    /// When hooks fail, run `git diff` directly afterward.
    pub show_diff_on_failure: bool,
    /// Stop running hooks after the first failure.
    pub fail_fast: bool,
    /// Do not run the hooks, but print the hooks that would have been run.
    pub dry_run: bool,
    pub extra: RunExtraArgs,
}

impl RunArgs {
    /// Every argument but the refs, `all_files` and the extra arguments has its default.
    pub open spec fn is_default_except_refs_and_extra(&self) -> bool {
        &&& self.includes@.len() == 0
        &&& self.skips@.len() == 0
        &&& self.files@.len() == 0
        &&& self.directory@.len() == 0
        &&& !self.last_commit
        &&& self.hook_stage is None
        &&& !self.show_diff_on_failure
        &&& !self.fail_fast
        &&& !self.dry_run
    }

    /// No refs are given and not all files are selected.
    pub open spec fn no_refs(&self) -> bool {
        self.from_ref is None && self.to_ref is None && !self.all_files
    }
}

impl Default for RunArgs {
    fn default() -> (r: RunArgs)
        ensures
            r.is_default_except_refs_and_extra(),
            r.no_refs(),
            r.extra.only_set(Set::empty()),
    {
        RunArgs {
            includes: Vec::new(),
            skips: Vec::new(),
            all_files: false,
            files: Vec::new(),
            directory: Vec::new(),
            from_ref: None,
            to_ref: None,
            last_commit: false,
            hook_stage: None,
            show_diff_on_failure: false,
            fail_fast: false,
            dry_run: false,
            extra: RunExtraArgs::default(),
        }
    }
}

} // verus!
