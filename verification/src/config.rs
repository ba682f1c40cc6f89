//! The configuration model: languages, git hook types, stages, hook options and repos.
use vstd::prelude::*;

use crate::options::HookOptions;
use crate::text::{concat3, opt_str_view, str_eq};

verus! {

/// The language a hook is written in; it tells prek how to install and run it.
#[derive(Debug, Copy, Clone, PartialEq, Eq, Hash, Structural)]
pub enum Language {
    Conda,
    Coursier,
    Dart,
    Docker,
    DockerImage,
    Dotnet,
    Fail,
    Golang,
    Haskell,
    Lua,
    Node,
    Perl,
    Python,
    R,
    Ruby,
    Rust,
    Swift,
    Pygrep,
    Script,
    System,
}

impl Language {
    /// The name of the language as written in configuration files.
    pub open spec fn name(self) -> Seq<char> {
        match self {
            Language::Conda => "conda"@,
            Language::Coursier => "coursier"@,
            Language::Dart => "dart"@,
            Language::Docker => "docker"@,
            Language::DockerImage => "docker_image"@,
            Language::Dotnet => "dotnet"@,
            Language::Fail => "fail"@,
            Language::Golang => "golang"@,
            Language::Haskell => "haskell"@,
            Language::Lua => "lua"@,
            Language::Node => "node"@,
            Language::Perl => "perl"@,
            Language::Python => "python"@,
            Language::R => "r"@,
            Language::Ruby => "ruby"@,
            Language::Rust => "rust"@,
            Language::Swift => "swift"@,
            Language::Pygrep => "pygrep"@,
            Language::Script => "script"@,
            Language::System => "system"@,
        }
    }

    pub fn as_str(&self) -> (s: &str)
        ensures
            s@ == self.name(),
    {
        match self {
            Self::Conda => "conda",
            Self::Coursier => "coursier",
            Self::Dart => "dart",
            Self::Docker => "docker",
            Self::DockerImage => "docker_image",
            Self::Dotnet => "dotnet",
            Self::Fail => "fail",
            Self::Golang => "golang",
            Self::Haskell => "haskell",
            Self::Lua => "lua",
            Self::Node => "node",
            Self::Perl => "perl",
            Self::Python => "python",
            Self::R => "r",
            Self::Ruby => "ruby",
            Self::Rust => "rust",
            Self::Swift => "swift",
            Self::Pygrep => "pygrep",
            Self::Script => "script",
            Self::System => "system",
        }
    }
}

/// The git hook types prek can be installed for.
#[derive(Debug, Copy, Clone, PartialEq, Eq, Hash, Structural)]
pub enum HookType {
    CommitMsg,
    PostCheckout,
    PostCommit,
    PostMerge,
    PostRewrite,
    PreCommit,
    PreMergeCommit,
    PrePush,
    PreRebase,
    PrepareCommitMsg,
}

impl HookType {
    /// The name of the hook type, which is also the file name of the git hook.
    pub open spec fn name(self) -> Seq<char> {
        match self {
            HookType::CommitMsg => "commit-msg"@,
            HookType::PostCheckout => "post-checkout"@,
            HookType::PostCommit => "post-commit"@,
            HookType::PostMerge => "post-merge"@,
            HookType::PostRewrite => "post-rewrite"@,
            HookType::PreCommit => "pre-commit"@,
            HookType::PreMergeCommit => "pre-merge-commit"@,
            HookType::PrePush => "pre-push"@,
            HookType::PreRebase => "pre-rebase"@,
            HookType::PrepareCommitMsg => "prepare-commit-msg"@,
        }
    }

    /// The smallest and largest number of arguments git passes to this hook.
    pub open spec fn arg_bounds(self) -> (usize, usize) {
        match self {
            HookType::CommitMsg => (1, 1),
            HookType::PostCheckout => (3, 3),
            HookType::PreCommit => (0, 0),
            HookType::PostCommit => (0, 0),
            HookType::PreMergeCommit => (0, 0),
            HookType::PostMerge => (1, 1),
            HookType::PostRewrite => (1, 1),
            HookType::PrePush => (2, 2),
            HookType::PreRebase => (1, 2),
            HookType::PrepareCommitMsg => (1, 3),
        }
    }

    pub fn as_str(&self) -> (s: &str)
        ensures
            s@ == self.name(),
    {
        match self {
            Self::CommitMsg => "commit-msg",
            Self::PostCheckout => "post-checkout",
            Self::PostCommit => "post-commit",
            Self::PostMerge => "post-merge",
            Self::PostRewrite => "post-rewrite",
            Self::PreCommit => "pre-commit",
            Self::PreMergeCommit => "pre-merge-commit",
            Self::PrePush => "pre-push",
            Self::PreRebase => "pre-rebase",
            Self::PrepareCommitMsg => "prepare-commit-msg",
        }
    }

    /// Return the number of arguments this hook type expects.
    pub fn num_args(self) -> (r: std::ops::RangeInclusive<usize>)
        ensures
            r@.start == self.arg_bounds().0,
            r@.end == self.arg_bounds().1,
            !r@.exhausted,
    {
        match self {
            Self::CommitMsg => 1..=1,
            Self::PostCheckout => 3..=3,
            Self::PreCommit => 0..=0,
            Self::PostCommit => 0..=0,
            Self::PreMergeCommit => 0..=0,
            Self::PostMerge => 1..=1,
            Self::PostRewrite => 1..=1,
            Self::PrePush => 2..=2,
            Self::PreRebase => 1..=2,
            Self::PrepareCommitMsg => 1..=3,
        }
    }
}

/// The stages a hook can run in.
#[derive(Debug, Copy, Clone, PartialEq, Eq, Hash, Structural)]
pub enum Stage {
    Manual,
    CommitMsg,
    PostCheckout,
    PostCommit,
    PostMerge,
    PostRewrite,
    PreCommit,
    PreMergeCommit,
    PrePush,
    PreRebase,
    PrepareCommitMsg,
}

impl Stage {
    pub open spec fn name(self) -> Seq<char> {
        match self {
            Stage::Manual => "manual"@,
            Stage::CommitMsg => "commit-msg"@,
            Stage::PostCheckout => "post-checkout"@,
            Stage::PostCommit => "post-commit"@,
            Stage::PostMerge => "post-merge"@,
            Stage::PostRewrite => "post-rewrite"@,
            Stage::PreCommit => "pre-commit"@,
            Stage::PreMergeCommit => "pre-merge-commit"@,
            Stage::PrePush => "pre-push"@,
            Stage::PreRebase => "pre-rebase"@,
            Stage::PrepareCommitMsg => "prepare-commit-msg"@,
        }
    }

    /// The stage that a git hook of type `h` runs.
    pub open spec fn of_hook_type(h: HookType) -> Stage {
        match h {
            HookType::CommitMsg => Stage::CommitMsg,
            HookType::PostCheckout => Stage::PostCheckout,
            HookType::PostCommit => Stage::PostCommit,
            HookType::PostMerge => Stage::PostMerge,
            HookType::PostRewrite => Stage::PostRewrite,
            HookType::PreCommit => Stage::PreCommit,
            HookType::PreMergeCommit => Stage::PreMergeCommit,
            HookType::PrePush => Stage::PrePush,
            HookType::PreRebase => Stage::PreRebase,
            HookType::PrepareCommitMsg => Stage::PrepareCommitMsg,
        }
    }

    /// Whether hooks of this stage are given the files to check.
    pub open spec fn takes_files(self) -> bool {
        match self {
            Stage::Manual | Stage::CommitMsg | Stage::PreCommit | Stage::PreMergeCommit
            | Stage::PrePush | Stage::PrepareCommitMsg => true,
            _ => false,
        }
    }

    pub fn as_str(&self) -> (s: &str)
        ensures
            s@ == self.name(),
    {
        match self {
            Self::Manual => "manual",
            Self::CommitMsg => "commit-msg",
            Self::PostCheckout => "post-checkout",
            Self::PostCommit => "post-commit",
            Self::PostMerge => "post-merge",
            Self::PostRewrite => "post-rewrite",
            Self::PreCommit => "pre-commit",
            Self::PreMergeCommit => "pre-merge-commit",
            Self::PrePush => "pre-push",
            Self::PreRebase => "pre-rebase",
            Self::PrepareCommitMsg => "prepare-commit-msg",
        }
    }

    pub fn operate_on_files(self) -> (b: bool)
        ensures
            b == self.takes_files(),
    {
        matches!(
            self,
            Stage::Manual | Stage::CommitMsg | Stage::PreCommit | Stage::PreMergeCommit
                | Stage::PrePush | Stage::PrepareCommitMsg
        )
    }
}

impl From<HookType> for Stage {
    fn from(value: HookType) -> (s: Self) {
        match value {
            HookType::CommitMsg => Self::CommitMsg,
            HookType::PostCheckout => Self::PostCheckout,
            HookType::PostCommit => Self::PostCommit,
            HookType::PostMerge => Self::PostMerge,
            HookType::PostRewrite => Self::PostRewrite,
            HookType::PreCommit => Self::PreCommit,
            HookType::PreMergeCommit => Self::PreMergeCommit,
            HookType::PrePush => Self::PrePush,
            HookType::PreRebase => Self::PreRebase,
            HookType::PrepareCommitMsg => Self::PrepareCommitMsg,
        }
    }
}

impl vstd::std_specs::convert::FromSpecImpl<HookType> for Stage {
    open spec fn obeys_from_spec() -> bool {
        true
    }

    open spec fn from_spec(v: HookType) -> Stage {
        Stage::of_hook_type(v)
    }
}

impl Language {
    /// The language named `s` (snake case), with the legacy aliases `unsupported_script` and `unsupported`.
    pub open spec fn from_name_spec(s: Seq<char>) -> Option<Language> {
        if s == "conda"@ {
            Some(Language::Conda)
        } else if s == "coursier"@ {
            Some(Language::Coursier)
        } else if s == "dart"@ {
            Some(Language::Dart)
        } else if s == "docker"@ {
            Some(Language::Docker)
        } else if s == "docker_image"@ {
            Some(Language::DockerImage)
        } else if s == "dotnet"@ {
            Some(Language::Dotnet)
        } else if s == "fail"@ {
            Some(Language::Fail)
        } else if s == "golang"@ {
            Some(Language::Golang)
        } else if s == "haskell"@ {
            Some(Language::Haskell)
        } else if s == "lua"@ {
            Some(Language::Lua)
        } else if s == "node"@ {
            Some(Language::Node)
        } else if s == "perl"@ {
            Some(Language::Perl)
        } else if s == "python"@ {
            Some(Language::Python)
        } else if s == "r"@ {
            Some(Language::R)
        } else if s == "ruby"@ {
            Some(Language::Ruby)
        } else if s == "rust"@ {
            Some(Language::Rust)
        } else if s == "swift"@ {
            Some(Language::Swift)
        } else if s == "pygrep"@ {
            Some(Language::Pygrep)
        } else if s == "script"@ {
            Some(Language::Script)
        } else if s == "system"@ {
            Some(Language::System)
        } else if s == "unsupported_script"@ {
            Some(Language::Script)
        } else if s == "unsupported"@ {
            Some(Language::System)
        } else {
            None
        }
    }

    /// Parses a name as written in configuration files.
    pub fn from_name(s: &str) -> (r: Option<Language>)
        ensures
            r == Language::from_name_spec(s@),
    {
        if str_eq(s, "conda") {
            Some(Language::Conda)
        } else if str_eq(s, "coursier") {
            Some(Language::Coursier)
        } else if str_eq(s, "dart") {
            Some(Language::Dart)
        } else if str_eq(s, "docker") {
            Some(Language::Docker)
        } else if str_eq(s, "docker_image") {
            Some(Language::DockerImage)
        } else if str_eq(s, "dotnet") {
            Some(Language::Dotnet)
        } else if str_eq(s, "fail") {
            Some(Language::Fail)
        } else if str_eq(s, "golang") {
            Some(Language::Golang)
        } else if str_eq(s, "haskell") {
            Some(Language::Haskell)
        } else if str_eq(s, "lua") {
            Some(Language::Lua)
        } else if str_eq(s, "node") {
            Some(Language::Node)
        } else if str_eq(s, "perl") {
            Some(Language::Perl)
        } else if str_eq(s, "python") {
            Some(Language::Python)
        } else if str_eq(s, "r") {
            Some(Language::R)
        } else if str_eq(s, "ruby") {
            Some(Language::Ruby)
        } else if str_eq(s, "rust") {
            Some(Language::Rust)
        } else if str_eq(s, "swift") {
            Some(Language::Swift)
        } else if str_eq(s, "pygrep") {
            Some(Language::Pygrep)
        } else if str_eq(s, "script") {
            Some(Language::Script)
        } else if str_eq(s, "system") {
            Some(Language::System)
        } else if str_eq(s, "unsupported_script") {
            Some(Language::Script)
        } else if str_eq(s, "unsupported") {
            Some(Language::System)
        } else {
            None
        }
    }
}

/// Every language is read back from its own name.
pub proof fn language_name_round_trip(x: Language)
    ensures
        Language::from_name_spec(x.name()) == Some(x),
{
    match x {
        Language::Conda => {
            reveal_strlit("conda");
        },
        Language::Coursier => {
            reveal_strlit("coursier");
            reveal_strlit("conda");
            assert("coursier"@.len() != "conda"@.len());
        },
        Language::Dart => {
            reveal_strlit("dart");
            reveal_strlit("conda");
            assert("dart"@.len() != "conda"@.len());
            reveal_strlit("coursier");
            assert("dart"@.len() != "coursier"@.len());
        },
        Language::Docker => {
            reveal_strlit("docker");
            reveal_strlit("conda");
            assert("docker"@.len() != "conda"@.len());
            reveal_strlit("coursier");
            assert("docker"@.len() != "coursier"@.len());
            reveal_strlit("dart");
            assert("docker"@.len() != "dart"@.len());
        },
        Language::DockerImage => {
            reveal_strlit("docker_image");
            reveal_strlit("conda");
            assert("docker_image"@.len() != "conda"@.len());
            reveal_strlit("coursier");
            assert("docker_image"@.len() != "coursier"@.len());
            reveal_strlit("dart");
            assert("docker_image"@.len() != "dart"@.len());
            reveal_strlit("docker");
            assert("docker_image"@.len() != "docker"@.len());
        },
        Language::Dotnet => {
            reveal_strlit("dotnet");
            reveal_strlit("conda");
            assert("dotnet"@.len() != "conda"@.len());
            reveal_strlit("coursier");
            assert("dotnet"@.len() != "coursier"@.len());
            reveal_strlit("dart");
            assert("dotnet"@.len() != "dart"@.len());
            reveal_strlit("docker");
            assert("dotnet"@[2] != "docker"@[2]);
            reveal_strlit("docker_image");
            assert("dotnet"@.len() != "docker_image"@.len());
        },
        Language::Fail => {
            reveal_strlit("fail");
            reveal_strlit("conda");
            assert("fail"@.len() != "conda"@.len());
            reveal_strlit("coursier");
            assert("fail"@.len() != "coursier"@.len());
            reveal_strlit("dart");
            assert("fail"@[0] != "dart"@[0]);
            reveal_strlit("docker");
            assert("fail"@.len() != "docker"@.len());
            reveal_strlit("docker_image");
            assert("fail"@.len() != "docker_image"@.len());
            reveal_strlit("dotnet");
            assert("fail"@.len() != "dotnet"@.len());
        },
        Language::Golang => {
            reveal_strlit("golang");
            reveal_strlit("conda");
            assert("golang"@.len() != "conda"@.len());
            reveal_strlit("coursier");
            assert("golang"@.len() != "coursier"@.len());
            reveal_strlit("dart");
            assert("golang"@.len() != "dart"@.len());
            reveal_strlit("docker");
            assert("golang"@[0] != "docker"@[0]);
            reveal_strlit("docker_image");
            assert("golang"@.len() != "docker_image"@.len());
            reveal_strlit("dotnet");
            assert("golang"@[0] != "dotnet"@[0]);
            reveal_strlit("fail");
            assert("golang"@.len() != "fail"@.len());
        },
        Language::Haskell => {
            reveal_strlit("haskell");
            reveal_strlit("conda");
            assert("haskell"@.len() != "conda"@.len());
            reveal_strlit("coursier");
            assert("haskell"@.len() != "coursier"@.len());
            reveal_strlit("dart");
            assert("haskell"@.len() != "dart"@.len());
            reveal_strlit("docker");
            assert("haskell"@.len() != "docker"@.len());
            reveal_strlit("docker_image");
            assert("haskell"@.len() != "docker_image"@.len());
            reveal_strlit("dotnet");
            assert("haskell"@.len() != "dotnet"@.len());
            reveal_strlit("fail");
            assert("haskell"@.len() != "fail"@.len());
            reveal_strlit("golang");
            assert("haskell"@.len() != "golang"@.len());
        },
        Language::Lua => {
            reveal_strlit("lua");
            reveal_strlit("conda");
            assert("lua"@.len() != "conda"@.len());
            reveal_strlit("coursier");
            assert("lua"@.len() != "coursier"@.len());
            reveal_strlit("dart");
            assert("lua"@.len() != "dart"@.len());
            reveal_strlit("docker");
            assert("lua"@.len() != "docker"@.len());
            reveal_strlit("docker_image");
            assert("lua"@.len() != "docker_image"@.len());
            reveal_strlit("dotnet");
            assert("lua"@.len() != "dotnet"@.len());
            reveal_strlit("fail");
            assert("lua"@.len() != "fail"@.len());
            reveal_strlit("golang");
            assert("lua"@.len() != "golang"@.len());
            reveal_strlit("haskell");
            assert("lua"@.len() != "haskell"@.len());
        },
        Language::Node => {
            reveal_strlit("node");
            reveal_strlit("conda");
            assert("node"@.len() != "conda"@.len());
            reveal_strlit("coursier");
            assert("node"@.len() != "coursier"@.len());
            reveal_strlit("dart");
            assert("node"@[0] != "dart"@[0]);
            reveal_strlit("docker");
            assert("node"@.len() != "docker"@.len());
            reveal_strlit("docker_image");
            assert("node"@.len() != "docker_image"@.len());
            reveal_strlit("dotnet");
            assert("node"@.len() != "dotnet"@.len());
            reveal_strlit("fail");
            assert("node"@[0] != "fail"@[0]);
            reveal_strlit("golang");
            assert("node"@.len() != "golang"@.len());
            reveal_strlit("haskell");
            assert("node"@.len() != "haskell"@.len());
            reveal_strlit("lua");
            assert("node"@.len() != "lua"@.len());
        },
        Language::Perl => {
            reveal_strlit("perl");
            reveal_strlit("conda");
            assert("perl"@.len() != "conda"@.len());
            reveal_strlit("coursier");
            assert("perl"@.len() != "coursier"@.len());
            reveal_strlit("dart");
            assert("perl"@[0] != "dart"@[0]);
            reveal_strlit("docker");
            assert("perl"@.len() != "docker"@.len());
            reveal_strlit("docker_image");
            assert("perl"@.len() != "docker_image"@.len());
            reveal_strlit("dotnet");
            assert("perl"@.len() != "dotnet"@.len());
            reveal_strlit("fail");
            assert("perl"@[0] != "fail"@[0]);
            reveal_strlit("golang");
            assert("perl"@.len() != "golang"@.len());
            reveal_strlit("haskell");
            assert("perl"@.len() != "haskell"@.len());
            reveal_strlit("lua");
            assert("perl"@.len() != "lua"@.len());
            reveal_strlit("node");
            assert("perl"@[0] != "node"@[0]);
        },
        Language::Python => {
            reveal_strlit("python");
            reveal_strlit("conda");
            assert("python"@.len() != "conda"@.len());
            reveal_strlit("coursier");
            assert("python"@.len() != "coursier"@.len());
            reveal_strlit("dart");
            assert("python"@.len() != "dart"@.len());
            reveal_strlit("docker");
            assert("python"@[0] != "docker"@[0]);
            reveal_strlit("docker_image");
            assert("python"@.len() != "docker_image"@.len());
            reveal_strlit("dotnet");
            assert("python"@[0] != "dotnet"@[0]);
            reveal_strlit("fail");
            assert("python"@.len() != "fail"@.len());
            reveal_strlit("golang");
            assert("python"@[0] != "golang"@[0]);
            reveal_strlit("haskell");
            assert("python"@.len() != "haskell"@.len());
            reveal_strlit("lua");
            assert("python"@.len() != "lua"@.len());
            reveal_strlit("node");
            assert("python"@.len() != "node"@.len());
            reveal_strlit("perl");
            assert("python"@.len() != "perl"@.len());
        },
        Language::R => {
            reveal_strlit("r");
            reveal_strlit("conda");
            assert("r"@.len() != "conda"@.len());
            reveal_strlit("coursier");
            assert("r"@.len() != "coursier"@.len());
            reveal_strlit("dart");
            assert("r"@.len() != "dart"@.len());
            reveal_strlit("docker");
            assert("r"@.len() != "docker"@.len());
            reveal_strlit("docker_image");
            assert("r"@.len() != "docker_image"@.len());
            reveal_strlit("dotnet");
            assert("r"@.len() != "dotnet"@.len());
            reveal_strlit("fail");
            assert("r"@.len() != "fail"@.len());
            reveal_strlit("golang");
            assert("r"@.len() != "golang"@.len());
            reveal_strlit("haskell");
            assert("r"@.len() != "haskell"@.len());
            reveal_strlit("lua");
            assert("r"@.len() != "lua"@.len());
            reveal_strlit("node");
            assert("r"@.len() != "node"@.len());
            reveal_strlit("perl");
            assert("r"@.len() != "perl"@.len());
            reveal_strlit("python");
            assert("r"@.len() != "python"@.len());
        },
        Language::Ruby => {
            reveal_strlit("ruby");
            reveal_strlit("conda");
            assert("ruby"@.len() != "conda"@.len());
            reveal_strlit("coursier");
            assert("ruby"@.len() != "coursier"@.len());
            reveal_strlit("dart");
            assert("ruby"@[0] != "dart"@[0]);
            reveal_strlit("docker");
            assert("ruby"@.len() != "docker"@.len());
            reveal_strlit("docker_image");
            assert("ruby"@.len() != "docker_image"@.len());
            reveal_strlit("dotnet");
            assert("ruby"@.len() != "dotnet"@.len());
            reveal_strlit("fail");
            assert("ruby"@[0] != "fail"@[0]);
            reveal_strlit("golang");
            assert("ruby"@.len() != "golang"@.len());
            reveal_strlit("haskell");
            assert("ruby"@.len() != "haskell"@.len());
            reveal_strlit("lua");
            assert("ruby"@.len() != "lua"@.len());
            reveal_strlit("node");
            assert("ruby"@[0] != "node"@[0]);
            reveal_strlit("perl");
            assert("ruby"@[0] != "perl"@[0]);
            reveal_strlit("python");
            assert("ruby"@.len() != "python"@.len());
            reveal_strlit("r");
            assert("ruby"@.len() != "r"@.len());
        },
        Language::Rust => {
            reveal_strlit("rust");
            reveal_strlit("conda");
            assert("rust"@.len() != "conda"@.len());
            reveal_strlit("coursier");
            assert("rust"@.len() != "coursier"@.len());
            reveal_strlit("dart");
            assert("rust"@[0] != "dart"@[0]);
            reveal_strlit("docker");
            assert("rust"@.len() != "docker"@.len());
            reveal_strlit("docker_image");
            assert("rust"@.len() != "docker_image"@.len());
            reveal_strlit("dotnet");
            assert("rust"@.len() != "dotnet"@.len());
            reveal_strlit("fail");
            assert("rust"@[0] != "fail"@[0]);
            reveal_strlit("golang");
            assert("rust"@.len() != "golang"@.len());
            reveal_strlit("haskell");
            assert("rust"@.len() != "haskell"@.len());
            reveal_strlit("lua");
            assert("rust"@.len() != "lua"@.len());
            reveal_strlit("node");
            assert("rust"@[0] != "node"@[0]);
            reveal_strlit("perl");
            assert("rust"@[0] != "perl"@[0]);
            reveal_strlit("python");
            assert("rust"@.len() != "python"@.len());
            reveal_strlit("r");
            assert("rust"@.len() != "r"@.len());
            reveal_strlit("ruby");
            assert("rust"@[2] != "ruby"@[2]);
        },
        Language::Swift => {
            reveal_strlit("swift");
            reveal_strlit("conda");
            assert("swift"@[0] != "conda"@[0]);
            reveal_strlit("coursier");
            assert("swift"@.len() != "coursier"@.len());
            reveal_strlit("dart");
            assert("swift"@.len() != "dart"@.len());
            reveal_strlit("docker");
            assert("swift"@.len() != "docker"@.len());
            reveal_strlit("docker_image");
            assert("swift"@.len() != "docker_image"@.len());
            reveal_strlit("dotnet");
            assert("swift"@.len() != "dotnet"@.len());
            reveal_strlit("fail");
            assert("swift"@.len() != "fail"@.len());
            reveal_strlit("golang");
            assert("swift"@.len() != "golang"@.len());
            reveal_strlit("haskell");
            assert("swift"@.len() != "haskell"@.len());
            reveal_strlit("lua");
            assert("swift"@.len() != "lua"@.len());
            reveal_strlit("node");
            assert("swift"@.len() != "node"@.len());
            reveal_strlit("perl");
            assert("swift"@.len() != "perl"@.len());
            reveal_strlit("python");
            assert("swift"@.len() != "python"@.len());
            reveal_strlit("r");
            assert("swift"@.len() != "r"@.len());
            reveal_strlit("ruby");
            assert("swift"@.len() != "ruby"@.len());
            reveal_strlit("rust");
            assert("swift"@.len() != "rust"@.len());
        },
        Language::Pygrep => {
            reveal_strlit("pygrep");
            reveal_strlit("conda");
            assert("pygrep"@.len() != "conda"@.len());
            reveal_strlit("coursier");
            assert("pygrep"@.len() != "coursier"@.len());
            reveal_strlit("dart");
            assert("pygrep"@.len() != "dart"@.len());
            reveal_strlit("docker");
            assert("pygrep"@[0] != "docker"@[0]);
            reveal_strlit("docker_image");
            assert("pygrep"@.len() != "docker_image"@.len());
            reveal_strlit("dotnet");
            assert("pygrep"@[0] != "dotnet"@[0]);
            reveal_strlit("fail");
            assert("pygrep"@.len() != "fail"@.len());
            reveal_strlit("golang");
            assert("pygrep"@[0] != "golang"@[0]);
            reveal_strlit("haskell");
            assert("pygrep"@.len() != "haskell"@.len());
            reveal_strlit("lua");
            assert("pygrep"@.len() != "lua"@.len());
            reveal_strlit("node");
            assert("pygrep"@.len() != "node"@.len());
            reveal_strlit("perl");
            assert("pygrep"@.len() != "perl"@.len());
            reveal_strlit("python");
            assert("pygrep"@[2] != "python"@[2]);
            reveal_strlit("r");
            assert("pygrep"@.len() != "r"@.len());
            reveal_strlit("ruby");
            assert("pygrep"@.len() != "ruby"@.len());
            reveal_strlit("rust");
            assert("pygrep"@.len() != "rust"@.len());
            reveal_strlit("swift");
            assert("pygrep"@.len() != "swift"@.len());
        },
        Language::Script => {
            reveal_strlit("script");
            reveal_strlit("conda");
            assert("script"@.len() != "conda"@.len());
            reveal_strlit("coursier");
            assert("script"@.len() != "coursier"@.len());
            reveal_strlit("dart");
            assert("script"@.len() != "dart"@.len());
            reveal_strlit("docker");
            assert("script"@[0] != "docker"@[0]);
            reveal_strlit("docker_image");
            assert("script"@.len() != "docker_image"@.len());
            reveal_strlit("dotnet");
            assert("script"@[0] != "dotnet"@[0]);
            reveal_strlit("fail");
            assert("script"@.len() != "fail"@.len());
            reveal_strlit("golang");
            assert("script"@[0] != "golang"@[0]);
            reveal_strlit("haskell");
            assert("script"@.len() != "haskell"@.len());
            reveal_strlit("lua");
            assert("script"@.len() != "lua"@.len());
            reveal_strlit("node");
            assert("script"@.len() != "node"@.len());
            reveal_strlit("perl");
            assert("script"@.len() != "perl"@.len());
            reveal_strlit("python");
            assert("script"@[0] != "python"@[0]);
            reveal_strlit("r");
            assert("script"@.len() != "r"@.len());
            reveal_strlit("ruby");
            assert("script"@.len() != "ruby"@.len());
            reveal_strlit("rust");
            assert("script"@.len() != "rust"@.len());
            reveal_strlit("swift");
            assert("script"@.len() != "swift"@.len());
            reveal_strlit("pygrep");
            assert("script"@[0] != "pygrep"@[0]);
        },
        Language::System => {
            reveal_strlit("system");
            reveal_strlit("conda");
            assert("system"@.len() != "conda"@.len());
            reveal_strlit("coursier");
            assert("system"@.len() != "coursier"@.len());
            reveal_strlit("dart");
            assert("system"@.len() != "dart"@.len());
            reveal_strlit("docker");
            assert("system"@[0] != "docker"@[0]);
            reveal_strlit("docker_image");
            assert("system"@.len() != "docker_image"@.len());
            reveal_strlit("dotnet");
            assert("system"@[0] != "dotnet"@[0]);
            reveal_strlit("fail");
            assert("system"@.len() != "fail"@.len());
            reveal_strlit("golang");
            assert("system"@[0] != "golang"@[0]);
            reveal_strlit("haskell");
            assert("system"@.len() != "haskell"@.len());
            reveal_strlit("lua");
            assert("system"@.len() != "lua"@.len());
            reveal_strlit("node");
            assert("system"@.len() != "node"@.len());
            reveal_strlit("perl");
            assert("system"@.len() != "perl"@.len());
            reveal_strlit("python");
            assert("system"@[0] != "python"@[0]);
            reveal_strlit("r");
            assert("system"@.len() != "r"@.len());
            reveal_strlit("ruby");
            assert("system"@.len() != "ruby"@.len());
            reveal_strlit("rust");
            assert("system"@.len() != "rust"@.len());
            reveal_strlit("swift");
            assert("system"@.len() != "swift"@.len());
            reveal_strlit("pygrep");
            assert("system"@[0] != "pygrep"@[0]);
            reveal_strlit("script");
            assert("system"@[1] != "script"@[1]);
        },
    }
}
impl HookType {
    /// The hook type named `s`.
    pub open spec fn from_name_spec(s: Seq<char>) -> Option<HookType> {
        if s == "commit-msg"@ {
            Some(HookType::CommitMsg)
        } else if s == "post-checkout"@ {
            Some(HookType::PostCheckout)
        } else if s == "post-commit"@ {
            Some(HookType::PostCommit)
        } else if s == "post-merge"@ {
            Some(HookType::PostMerge)
        } else if s == "post-rewrite"@ {
            Some(HookType::PostRewrite)
        } else if s == "pre-commit"@ {
            Some(HookType::PreCommit)
        } else if s == "pre-merge-commit"@ {
            Some(HookType::PreMergeCommit)
        } else if s == "pre-push"@ {
            Some(HookType::PrePush)
        } else if s == "pre-rebase"@ {
            Some(HookType::PreRebase)
        } else if s == "prepare-commit-msg"@ {
            Some(HookType::PrepareCommitMsg)
        } else {
            None
        }
    }

    /// Parses a name as written in configuration files.
    pub fn from_name(s: &str) -> (r: Option<HookType>)
        ensures
            r == HookType::from_name_spec(s@),
    {
        if str_eq(s, "commit-msg") {
            Some(HookType::CommitMsg)
        } else if str_eq(s, "post-checkout") {
            Some(HookType::PostCheckout)
        } else if str_eq(s, "post-commit") {
            Some(HookType::PostCommit)
        } else if str_eq(s, "post-merge") {
            Some(HookType::PostMerge)
        } else if str_eq(s, "post-rewrite") {
            Some(HookType::PostRewrite)
        } else if str_eq(s, "pre-commit") {
            Some(HookType::PreCommit)
        } else if str_eq(s, "pre-merge-commit") {
            Some(HookType::PreMergeCommit)
        } else if str_eq(s, "pre-push") {
            Some(HookType::PrePush)
        } else if str_eq(s, "pre-rebase") {
            Some(HookType::PreRebase)
        } else if str_eq(s, "prepare-commit-msg") {
            Some(HookType::PrepareCommitMsg)
        } else {
            None
        }
    }
}

/// Every hooktype is read back from its own name.
pub proof fn hook_type_name_round_trip(x: HookType)
    ensures
        HookType::from_name_spec(x.name()) == Some(x),
{
    match x {
        HookType::CommitMsg => {
            reveal_strlit("commit-msg");
        },
        HookType::PostCheckout => {
            reveal_strlit("post-checkout");
            reveal_strlit("commit-msg");
            assert("post-checkout"@.len() != "commit-msg"@.len());
        },
        HookType::PostCommit => {
            reveal_strlit("post-commit");
            reveal_strlit("commit-msg");
            assert("post-commit"@.len() != "commit-msg"@.len());
            reveal_strlit("post-checkout");
            assert("post-commit"@.len() != "post-checkout"@.len());
        },
        HookType::PostMerge => {
            reveal_strlit("post-merge");
            reveal_strlit("commit-msg");
            assert("post-merge"@[0] != "commit-msg"@[0]);
            reveal_strlit("post-checkout");
            assert("post-merge"@.len() != "post-checkout"@.len());
            reveal_strlit("post-commit");
            assert("post-merge"@.len() != "post-commit"@.len());
        },
        HookType::PostRewrite => {
            reveal_strlit("post-rewrite");
            reveal_strlit("commit-msg");
            assert("post-rewrite"@.len() != "commit-msg"@.len());
            reveal_strlit("post-checkout");
            assert("post-rewrite"@.len() != "post-checkout"@.len());
            reveal_strlit("post-commit");
            assert("post-rewrite"@.len() != "post-commit"@.len());
            reveal_strlit("post-merge");
            assert("post-rewrite"@.len() != "post-merge"@.len());
        },
        HookType::PreCommit => {
            reveal_strlit("pre-commit");
            reveal_strlit("commit-msg");
            assert("pre-commit"@[0] != "commit-msg"@[0]);
            reveal_strlit("post-checkout");
            assert("pre-commit"@.len() != "post-checkout"@.len());
            reveal_strlit("post-commit");
            assert("pre-commit"@.len() != "post-commit"@.len());
            reveal_strlit("post-merge");
            assert("pre-commit"@[1] != "post-merge"@[1]);
            reveal_strlit("post-rewrite");
            assert("pre-commit"@.len() != "post-rewrite"@.len());
        },
        HookType::PreMergeCommit => {
            reveal_strlit("pre-merge-commit");
            reveal_strlit("commit-msg");
            assert("pre-merge-commit"@.len() != "commit-msg"@.len());
            reveal_strlit("post-checkout");
            assert("pre-merge-commit"@.len() != "post-checkout"@.len());
            reveal_strlit("post-commit");
            assert("pre-merge-commit"@.len() != "post-commit"@.len());
            reveal_strlit("post-merge");
            assert("pre-merge-commit"@.len() != "post-merge"@.len());
            reveal_strlit("post-rewrite");
            assert("pre-merge-commit"@.len() != "post-rewrite"@.len());
            reveal_strlit("pre-commit");
            assert("pre-merge-commit"@.len() != "pre-commit"@.len());
        },
        HookType::PrePush => {
            reveal_strlit("pre-push");
            reveal_strlit("commit-msg");
            assert("pre-push"@.len() != "commit-msg"@.len());
            reveal_strlit("post-checkout");
            assert("pre-push"@.len() != "post-checkout"@.len());
            reveal_strlit("post-commit");
            assert("pre-push"@.len() != "post-commit"@.len());
            reveal_strlit("post-merge");
            assert("pre-push"@.len() != "post-merge"@.len());
            reveal_strlit("post-rewrite");
            assert("pre-push"@.len() != "post-rewrite"@.len());
            reveal_strlit("pre-commit");
            assert("pre-push"@.len() != "pre-commit"@.len());
            reveal_strlit("pre-merge-commit");
            assert("pre-push"@.len() != "pre-merge-commit"@.len());
        },
        HookType::PreRebase => {
            reveal_strlit("pre-rebase");
            reveal_strlit("commit-msg");
            assert("pre-rebase"@[0] != "commit-msg"@[0]);
            reveal_strlit("post-checkout");
            assert("pre-rebase"@.len() != "post-checkout"@.len());
            reveal_strlit("post-commit");
            assert("pre-rebase"@.len() != "post-commit"@.len());
            reveal_strlit("post-merge");
            assert("pre-rebase"@[1] != "post-merge"@[1]);
            reveal_strlit("post-rewrite");
            assert("pre-rebase"@.len() != "post-rewrite"@.len());
            reveal_strlit("pre-commit");
            assert("pre-rebase"@[4] != "pre-commit"@[4]);
            reveal_strlit("pre-merge-commit");
            assert("pre-rebase"@.len() != "pre-merge-commit"@.len());
            reveal_strlit("pre-push");
            assert("pre-rebase"@.len() != "pre-push"@.len());
        },
        HookType::PrepareCommitMsg => {
            reveal_strlit("prepare-commit-msg");
            reveal_strlit("commit-msg");
            assert("prepare-commit-msg"@.len() != "commit-msg"@.len());
            reveal_strlit("post-checkout");
            assert("prepare-commit-msg"@.len() != "post-checkout"@.len());
            reveal_strlit("post-commit");
            assert("prepare-commit-msg"@.len() != "post-commit"@.len());
            reveal_strlit("post-merge");
            assert("prepare-commit-msg"@.len() != "post-merge"@.len());
            reveal_strlit("post-rewrite");
            assert("prepare-commit-msg"@.len() != "post-rewrite"@.len());
            reveal_strlit("pre-commit");
            assert("prepare-commit-msg"@.len() != "pre-commit"@.len());
            reveal_strlit("pre-merge-commit");
            assert("prepare-commit-msg"@.len() != "pre-merge-commit"@.len());
            reveal_strlit("pre-push");
            assert("prepare-commit-msg"@.len() != "pre-push"@.len());
            reveal_strlit("pre-rebase");
            assert("prepare-commit-msg"@.len() != "pre-rebase"@.len());
        },
    }
}
impl Stage {
    /// The stage named `s`, with the legacy aliases `commit`, `merge-commit` and `push`.
    pub open spec fn from_name_spec(s: Seq<char>) -> Option<Stage> {
        if s == "manual"@ {
            Some(Stage::Manual)
        } else if s == "commit-msg"@ {
            Some(Stage::CommitMsg)
        } else if s == "post-checkout"@ {
            Some(Stage::PostCheckout)
        } else if s == "post-commit"@ {
            Some(Stage::PostCommit)
        } else if s == "post-merge"@ {
            Some(Stage::PostMerge)
        } else if s == "post-rewrite"@ {
            Some(Stage::PostRewrite)
        } else if s == "pre-commit"@ {
            Some(Stage::PreCommit)
        } else if s == "pre-merge-commit"@ {
            Some(Stage::PreMergeCommit)
        } else if s == "pre-push"@ {
            Some(Stage::PrePush)
        } else if s == "pre-rebase"@ {
            Some(Stage::PreRebase)
        } else if s == "prepare-commit-msg"@ {
            Some(Stage::PrepareCommitMsg)
        } else if s == "commit"@ {
            Some(Stage::PreCommit)
        } else if s == "merge-commit"@ {
            Some(Stage::PreMergeCommit)
        } else if s == "push"@ {
            Some(Stage::PrePush)
        } else {
            None
        }
    }

    /// Parses a name as written in configuration files.
    pub fn from_name(s: &str) -> (r: Option<Stage>)
        ensures
            r == Stage::from_name_spec(s@),
    {
        if str_eq(s, "manual") {
            Some(Stage::Manual)
        } else if str_eq(s, "commit-msg") {
            Some(Stage::CommitMsg)
        } else if str_eq(s, "post-checkout") {
            Some(Stage::PostCheckout)
        } else if str_eq(s, "post-commit") {
            Some(Stage::PostCommit)
        } else if str_eq(s, "post-merge") {
            Some(Stage::PostMerge)
        } else if str_eq(s, "post-rewrite") {
            Some(Stage::PostRewrite)
        } else if str_eq(s, "pre-commit") {
            Some(Stage::PreCommit)
        } else if str_eq(s, "pre-merge-commit") {
            Some(Stage::PreMergeCommit)
        } else if str_eq(s, "pre-push") {
            Some(Stage::PrePush)
        } else if str_eq(s, "pre-rebase") {
            Some(Stage::PreRebase)
        } else if str_eq(s, "prepare-commit-msg") {
            Some(Stage::PrepareCommitMsg)
        } else if str_eq(s, "commit") {
            Some(Stage::PreCommit)
        } else if str_eq(s, "merge-commit") {
            Some(Stage::PreMergeCommit)
        } else if str_eq(s, "push") {
            Some(Stage::PrePush)
        } else {
            None
        }
    }
}

/// Every stage is read back from its own name.
pub proof fn stage_name_round_trip(x: Stage)
    ensures
        Stage::from_name_spec(x.name()) == Some(x),
{
    match x {
        Stage::Manual => {
            reveal_strlit("manual");
        },
        Stage::CommitMsg => {
            reveal_strlit("commit-msg");
            reveal_strlit("manual");
            assert("commit-msg"@.len() != "manual"@.len());
        },
        Stage::PostCheckout => {
            reveal_strlit("post-checkout");
            reveal_strlit("manual");
            assert("post-checkout"@.len() != "manual"@.len());
            reveal_strlit("commit-msg");
            assert("post-checkout"@.len() != "commit-msg"@.len());
        },
        Stage::PostCommit => {
            reveal_strlit("post-commit");
            reveal_strlit("manual");
            assert("post-commit"@.len() != "manual"@.len());
            reveal_strlit("commit-msg");
            assert("post-commit"@.len() != "commit-msg"@.len());
            reveal_strlit("post-checkout");
            assert("post-commit"@.len() != "post-checkout"@.len());
        },
        Stage::PostMerge => {
            reveal_strlit("post-merge");
            reveal_strlit("manual");
            assert("post-merge"@.len() != "manual"@.len());
            reveal_strlit("commit-msg");
            assert("post-merge"@[0] != "commit-msg"@[0]);
            reveal_strlit("post-checkout");
            assert("post-merge"@.len() != "post-checkout"@.len());
            reveal_strlit("post-commit");
            assert("post-merge"@.len() != "post-commit"@.len());
        },
        Stage::PostRewrite => {
            reveal_strlit("post-rewrite");
            reveal_strlit("manual");
            assert("post-rewrite"@.len() != "manual"@.len());
            reveal_strlit("commit-msg");
            assert("post-rewrite"@.len() != "commit-msg"@.len());
            reveal_strlit("post-checkout");
            assert("post-rewrite"@.len() != "post-checkout"@.len());
            reveal_strlit("post-commit");
            assert("post-rewrite"@.len() != "post-commit"@.len());
            reveal_strlit("post-merge");
            assert("post-rewrite"@.len() != "post-merge"@.len());
        },
        Stage::PreCommit => {
            reveal_strlit("pre-commit");
            reveal_strlit("manual");
            assert("pre-commit"@.len() != "manual"@.len());
            reveal_strlit("commit-msg");
            assert("pre-commit"@[0] != "commit-msg"@[0]);
            reveal_strlit("post-checkout");
            assert("pre-commit"@.len() != "post-checkout"@.len());
            reveal_strlit("post-commit");
            assert("pre-commit"@.len() != "post-commit"@.len());
            reveal_strlit("post-merge");
            assert("pre-commit"@[1] != "post-merge"@[1]);
            reveal_strlit("post-rewrite");
            assert("pre-commit"@.len() != "post-rewrite"@.len());
        },
        Stage::PreMergeCommit => {
            reveal_strlit("pre-merge-commit");
            reveal_strlit("manual");
            assert("pre-merge-commit"@.len() != "manual"@.len());
            reveal_strlit("commit-msg");
            assert("pre-merge-commit"@.len() != "commit-msg"@.len());
            reveal_strlit("post-checkout");
            assert("pre-merge-commit"@.len() != "post-checkout"@.len());
            reveal_strlit("post-commit");
            assert("pre-merge-commit"@.len() != "post-commit"@.len());
            reveal_strlit("post-merge");
            assert("pre-merge-commit"@.len() != "post-merge"@.len());
            reveal_strlit("post-rewrite");
            assert("pre-merge-commit"@.len() != "post-rewrite"@.len());
            reveal_strlit("pre-commit");
            assert("pre-merge-commit"@.len() != "pre-commit"@.len());
        },
        Stage::PrePush => {
            reveal_strlit("pre-push");
            reveal_strlit("manual");
            assert("pre-push"@.len() != "manual"@.len());
            reveal_strlit("commit-msg");
            assert("pre-push"@.len() != "commit-msg"@.len());
            reveal_strlit("post-checkout");
            assert("pre-push"@.len() != "post-checkout"@.len());
            reveal_strlit("post-commit");
            assert("pre-push"@.len() != "post-commit"@.len());
            reveal_strlit("post-merge");
            assert("pre-push"@.len() != "post-merge"@.len());
            reveal_strlit("post-rewrite");
            assert("pre-push"@.len() != "post-rewrite"@.len());
            reveal_strlit("pre-commit");
            assert("pre-push"@.len() != "pre-commit"@.len());
            reveal_strlit("pre-merge-commit");
            assert("pre-push"@.len() != "pre-merge-commit"@.len());
        },
        Stage::PreRebase => {
            reveal_strlit("pre-rebase");
            reveal_strlit("manual");
            assert("pre-rebase"@.len() != "manual"@.len());
            reveal_strlit("commit-msg");
            assert("pre-rebase"@[0] != "commit-msg"@[0]);
            reveal_strlit("post-checkout");
            assert("pre-rebase"@.len() != "post-checkout"@.len());
            reveal_strlit("post-commit");
            assert("pre-rebase"@.len() != "post-commit"@.len());
            reveal_strlit("post-merge");
            assert("pre-rebase"@[1] != "post-merge"@[1]);
            reveal_strlit("post-rewrite");
            assert("pre-rebase"@.len() != "post-rewrite"@.len());
            reveal_strlit("pre-commit");
            assert("pre-rebase"@[4] != "pre-commit"@[4]);
            reveal_strlit("pre-merge-commit");
            assert("pre-rebase"@.len() != "pre-merge-commit"@.len());
            reveal_strlit("pre-push");
            assert("pre-rebase"@.len() != "pre-push"@.len());
        },
        Stage::PrepareCommitMsg => {
            reveal_strlit("prepare-commit-msg");
            reveal_strlit("manual");
            assert("prepare-commit-msg"@.len() != "manual"@.len());
            reveal_strlit("commit-msg");
            assert("prepare-commit-msg"@.len() != "commit-msg"@.len());
            reveal_strlit("post-checkout");
            assert("prepare-commit-msg"@.len() != "post-checkout"@.len());
            reveal_strlit("post-commit");
            assert("prepare-commit-msg"@.len() != "post-commit"@.len());
            reveal_strlit("post-merge");
            assert("prepare-commit-msg"@.len() != "post-merge"@.len());
            reveal_strlit("post-rewrite");
            assert("prepare-commit-msg"@.len() != "post-rewrite"@.len());
            reveal_strlit("pre-commit");
            assert("prepare-commit-msg"@.len() != "pre-commit"@.len());
            reveal_strlit("pre-merge-commit");
            assert("prepare-commit-msg"@.len() != "pre-merge-commit"@.len());
            reveal_strlit("pre-push");
            assert("prepare-commit-msg"@.len() != "pre-push"@.len());
            reveal_strlit("pre-rebase");
            assert("prepare-commit-msg"@.len() != "pre-rebase"@.len());
        },
    }
}

/// A git hook type and the stage it runs share one name.
pub proof fn stage_of_hook_type_keeps_name(h: HookType)
    ensures
        Stage::of_hook_type(h).name() == h.name(),
{
}

/// Distinct hook types run distinct stages, none of them the manual stage.
pub proof fn stage_of_hook_type_injective(a: HookType, b: HookType)
    ensures
        Stage::of_hook_type(a) == Stage::of_hook_type(b) ==> a == b,
        Stage::of_hook_type(a) != Stage::Manual,
{
}

/// The argument bounds of every hook type form a non-empty range.
pub proof fn hook_type_arg_bounds_ordered(h: HookType)
    ensures
        h.arg_bounds().0 <= h.arg_bounds().1,
{
}

} // verus!

verus! {

/// File name of the TOML configuration.
pub const PREK_TOML: &'static str = "prek.toml";

/// File name of the YAML configuration.
pub const PRE_COMMIT_CONFIG_YAML: &'static str = ".pre-commit-config.yaml";

/// Alternative file name of the YAML configuration.
pub const PRE_COMMIT_CONFIG_YML: &'static str = ".pre-commit-config.yml";

/// File name of the manifest a hook repository publishes.
pub const PRE_COMMIT_HOOKS_YAML: &'static str = ".pre-commit-hooks.yaml";

/// A hook defined in a manifest (or a local hook of a configuration file).
#[derive(Debug)]
pub struct ManifestHook {
    /// The id of the hook.
    pub id: String,
    /// The name of the hook.
    pub name: String,
    /// The command to run. It can contain arguments that will not be overridden.
    pub entry: String,
    /// The language of the hook.
    pub language: Language,
    pub options: HookOptions,
}

impl ManifestHook {
    pub open spec fn wf(&self) -> bool {
        self.options.wf()
    }

    /// Both hold the same definition.
    pub open spec fn same_as(&self, o: &ManifestHook) -> bool {
        &&& self.id@ == o.id@
        &&& self.name@ == o.name@
        &&& self.entry@ == o.entry@
        &&& self.language == o.language
        &&& self.options.same_as(&o.options)
    }

    pub fn duplicate(&self) -> (r: ManifestHook)
        requires
            self.wf(),
        ensures
            r.wf(),
            r.same_as(self),
    {
        ManifestHook {
            id: self.id.clone(),
            name: self.name.clone(),
            entry: self.entry.clone(),
            language: self.language,
            options: self.options.duplicate(),
        }
    }
}

/// A local hook in the configuration file: a full hook definition.
pub type LocalHook = ManifestHook;

/// A remote hook in the configuration file: all keys but `id` are optional and
/// override the repository's manifest.
#[derive(Debug)]
pub struct RemoteHook {
    /// The id of the hook.
    pub id: String,
    /// Override the name of the hook.
    pub name: Option<String>,
    /// Override the entrypoint.
    pub entry: Option<String>,
    /// Override the language.
    pub language: Option<Language>,
    pub options: HookOptions,
}

impl RemoteHook {
    pub open spec fn wf(&self) -> bool {
        self.options.wf()
    }
}

/// A meta hook predefined in pre-commit.
#[derive(Debug)]
pub struct MetaHook(pub ManifestHook);

/// A builtin hook predefined in prek.
#[derive(Debug)]
pub struct BuiltinHook(pub ManifestHook);

/// A remote repository of hooks pinned at a revision.
#[derive(Debug)]
pub struct RemoteRepo {
    pub repo: String,
    pub rev: String,
    pub hooks: Vec<RemoteHook>,
    /// Keys of the repository entry that prek does not know, in sorted order.
    pub unused_keys: Vec<String>,
}

impl RemoteRepo {
    pub fn new(repo: String, rev: String, hooks: Vec<RemoteHook>) -> (r: Self)
        ensures
            r.repo == repo,
            r.rev == rev,
            r.hooks == hooks,
            r.unused_keys@.len() == 0,
    {
        Self { repo, rev, hooks, unused_keys: Vec::new() }
    }

    /// Two remote repositories are the same when both the URL and the revision are.
    pub open spec fn same_source(&self, o: &RemoteRepo) -> bool {
        self.repo@ == o.repo@ && self.rev@ == o.rev@
    }

    /// The text `repo@rev`.
    pub open spec fn label(&self) -> Seq<char> {
        self.repo@ + "@"@ + self.rev@
    }

    pub fn display(&self) -> (s: String)
        ensures
            s@ == self.label(),
    {
        concat3(self.repo.as_str(), "@", self.rev.as_str())
    }
}

impl PartialEq for RemoteRepo {
    fn eq(&self, other: &Self) -> (r: bool) {
        str_eq(self.repo.as_str(), other.repo.as_str()) && str_eq(
            self.rev.as_str(),
            other.rev.as_str(),
        )
    }
}

impl vstd::std_specs::cmp::PartialEqSpecImpl for RemoteRepo {
    open spec fn obeys_eq_spec() -> bool {
        true
    }

    open spec fn eq_spec(&self, other: &RemoteRepo) -> bool {
        self.repo@ == other.repo@ && self.rev@ == other.rev@
    }
}

/// The hooks defined in place in the configuration file.
#[derive(Debug)]
pub struct LocalRepo {
    pub repo: String,
    pub hooks: Vec<LocalHook>,
    pub unused_keys: Vec<String>,
}

#[derive(Debug)]
pub struct MetaRepo {
    pub repo: String,
    pub hooks: Vec<MetaHook>,
    pub unused_keys: Vec<String>,
}

#[derive(Debug)]
pub struct BuiltinRepo {
    pub repo: String,
    pub hooks: Vec<BuiltinHook>,
    pub unused_keys: Vec<String>,
}

/// A repository of hooks, which can be remote, local, meta, or builtin.
#[derive(Debug)]
pub enum Repo {
    Remote(RemoteRepo),
    Local(LocalRepo),
    Meta(MetaRepo),
    Builtin(BuiltinRepo),
}

impl Repo {
    /// Keys of the repository entry that prek does not know.
    pub open spec fn unused_keys(&self) -> Seq<String> {
        match self {
            Repo::Remote(r) => r.unused_keys@,
            Repo::Local(r) => r.unused_keys@,
            Repo::Meta(r) => r.unused_keys@,
            Repo::Builtin(r) => r.unused_keys@,
        }
    }

    /// The number of hooks the entry configures.
    pub open spec fn hook_count(&self) -> nat {
        match self {
            Repo::Remote(r) => r.hooks@.len(),
            Repo::Local(r) => r.hooks@.len(),
            Repo::Meta(r) => r.hooks@.len(),
            Repo::Builtin(r) => r.hooks@.len(),
        }
    }

    /// The options of the `j`-th configured hook.
    pub open spec fn hook_options(&self, j: int) -> HookOptions {
        match self {
            Repo::Remote(r) => r.hooks@[j].options,
            Repo::Local(r) => r.hooks@[j].options,
            Repo::Meta(r) => r.hooks@[j].0.options,
            Repo::Builtin(r) => r.hooks@[j].0.options,
        }
    }
}

/// The language-to-version defaults of a configuration.
#[derive(Debug)]
pub struct LanguageVersions {
    pub entries: Vec<(Language, String)>,
}

impl LanguageVersions {
    /// The version given for `l` (the first entry for it).
    pub open spec fn lookup(&self, l: Language) -> Option<Seq<char>> {
        lookup_language(self.entries@, l)
    }

    pub fn get(&self, l: Language) -> (r: Option<String>)
        ensures
            opt_str_view(r) == self.lookup(l),
    {
        let mut i: usize = 0;
        proof {
            assert(self.entries@.skip(0) =~= self.entries@);
        }
        while i < self.entries.len()
            invariant
                i <= self.entries@.len(),
                lookup_language(self.entries@, l) == lookup_language(
                    self.entries@.skip(i as int),
                    l,
                ),
            decreases self.entries.len() - i,
        {
            proof {
                assert(self.entries@.skip(i as int).drop_first() =~= self.entries@.skip(i + 1));
            }
            if self.entries[i].0 == l {
                return Some(self.entries[i].1.clone());
            }
            i = i + 1;
        }
        None
    }
}

/// The value of the first entry for `l`.
pub open spec fn lookup_language(s: Seq<(Language, String)>, l: Language) -> Option<Seq<char>>
    decreases s.len(),
{
    if s.len() == 0 {
        None
    } else if s[0].0 == l {
        Some(s[0].1@)
    } else {
        lookup_language(s.drop_first(), l)
    }
}

/// A configuration file.
#[derive(Debug)]
pub struct Config {
    pub repos: Vec<Repo>,
    /// A list of `--hook-types` which will be used by default when running `prek install`.
    pub default_install_hook_types: Option<Vec<HookType>>,
    /// A mapping from language to the default `language_version`.
    pub default_language_version: Option<LanguageVersions>,
    /// A configuration-wide default for the stages property of hooks.
    pub default_stages: Option<Vec<Stage>>,
    /// Global file include pattern.
    pub files: Option<String>,
    /// Global file exclude pattern.
    pub exclude: Option<String>,
    /// Stop running hooks after the first failure.
    pub fail_fast: Option<bool>,
    /// The minimum version of prek required to run this configuration.
    pub minimum_prek_version: Option<String>,
    /// Isolate this project from parent configurations in workspace mode.
    pub orphan: Option<bool>,
    /// Top-level keys that prek does not know, in sorted order.
    pub unused_keys: Vec<String>,
}


/// The version looked up for a language is one the entries give for that
/// language, the first of them; there is none when no entry names it.
pub proof fn language_version_lookup_is_an_entry(s: Seq<(Language, String)>, l: Language)
    ensures
        match lookup_language(s, l) {
            Some(v) => exists|i: int|
                0 <= i < s.len() && (#[trigger] s[i]).0 == l && s[i].1@ == v && forall|j: int|
                    0 <= j < i ==> (#[trigger] s[j]).0 != l,
            None => forall|i: int| 0 <= i < s.len() ==> (#[trigger] s[i]).0 != l,
        },
    decreases s.len(),
{
    if s.len() > 0 {
        let t = s.drop_first();
        language_version_lookup_is_an_entry(t, l);
        if s[0].0 != l {
            match lookup_language(t, l) {
                Some(v) => {
                    let i = choose|i: int|
                        0 <= i < t.len() && (#[trigger] t[i]).0 == l && t[i].1@ == v && forall|j: int|
                            0 <= j < i ==> (#[trigger] t[j]).0 != l;
                    assert(s[i + 1] == t[i]);
                    assert forall|j: int| 0 <= j < i + 1 implies (#[trigger] s[j]).0 != l by {
                        if j > 0 {
                            assert(s[j] == t[j - 1]);
                        }
                    }
                },
                None => {
                    assert forall|i: int| 0 <= i < s.len() implies (#[trigger] s[i]).0 != l by {
                        if i > 0 {
                            assert(s[i] == t[i - 1]);
                        }
                    }
                },
            }
        }
    }
}

} // verus!
