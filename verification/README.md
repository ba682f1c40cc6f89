# prek

The configuration model and decision logic of the `prek` git-hook manager,
written in Verus: each function states what it returns in `requires` /
`ensures` clauses, and Verus proves the code against them.

## Layout

- `src/` — the verified library.
  - `config`, `options`, `loading`: the configuration types, hook options and
    their merging, and the checks made while a configuration is read.
  - `hook`, `project`: hook repositories, hook builders and the hooks of a
    project, resolved from the repository definitions, the project's entries
    and the configuration's defaults.
  - `auto_update`, `rev_lines`: choosing new revisions for remote repositories
    and rewriting the `rev:` lines of a configuration file.
  - `install`, `hook_impl`, `cli`: the installed hook script, the arguments of
    the hook entry point and the pre-push protocol.
  - `workspace`, `order`: project discovery, the workspace cache and the order
    of projects.
  - `uv`, `try_repo`, `version`, `patterns`: the uv installer's choices, the
    `try-repo` configuration, version requirements and file patterns.
- `tests/` — tests of the library on concrete values.
- `app/` — the command line: argument parsing, file and git I/O, and the
  threads that fetch repositories; it hands plain values to the library.

Calls into outside crates (`semver`, `fancy-regex`, `shlex`, `levenshtein`,
`serde_yaml`, `hex`, `target-lexicon`) go through small trusted wrappers whose
doc comments say what their contracts claim.
