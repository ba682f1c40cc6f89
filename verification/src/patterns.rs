//! Regular expressions of hook file filters, compiled by `fancy_regex`.
use vstd::prelude::*;

use crate::config::{PRE_COMMIT_CONFIG_YAML, PRE_COMMIT_CONFIG_YML, PREK_TOML};
use crate::options::HookOptions;
use crate::text::{push_str, string_of};

verus! {

/// The characters with a meaning in a pattern.
pub open spec fn is_regex_special(c: char) -> bool {
    c == '\\' || c == '.' || c == '+' || c == '*' || c == '?' || c == '(' || c == ')' || c == '|' || c
        == '[' || c == ']' || c == '{' || c == '}' || c == '^' || c == '$' || c == '#'
}

/// How one character is written in an escaped pattern.
pub open spec fn escaped_char(c: char) -> Seq<char> {
    if c == '\n' {
        seq!['\\', 'n']
    } else if c == '\t' {
        seq!['\\', 't']
    } else if c == '\r' {
        seq!['\\', 'r']
    } else if is_regex_special(c) {
        seq!['\\', c]
    } else {
        seq![c]
    }
}

/// Each character of `s` written as in an escaped pattern.
pub open spec fn escaped_chars(s: Seq<char>) -> Seq<char>
    decreases s.len(),
{
    if s.len() == 0 {
        Seq::empty()
    } else {
        escaped_chars(s.drop_last()) + escaped_char(s.last())
    }
}

/// The pattern matching exactly `text`: `text` itself when it has no special
/// character, else each character escaped.
pub open spec fn regex_escaped(text: Seq<char>) -> Seq<char> {
    if exists|i: int| 0 <= i < text.len() && is_regex_special(#[trigger] text[i]) {
        escaped_chars(text)
    } else {
        text
    }
}

/// What `fancy_regex::Regex::new` says of `pattern`: `None` when it compiles,
/// else the text of its error.
pub uninterp spec fn regex_error(pattern: Seq<char>) -> Option<Seq<char>>;

/// Escapes the special characters of `text` (`fancy_regex::escape`): when
/// `text` has any, a backslash goes before each, and a newline, tab or carriage
/// return is written as a backslash and `n`, `t` or `r`.
#[verifier::external_body]
fn escape(text: &str) -> (r: String)
    ensures
        r@ == regex_escaped(text@),
{
    fancy_regex::escape(text).into_owned()
}

/// Compiles `pattern` (`fancy_regex::Regex::new`), keeping only whether it compiles.
#[verifier::external_body]
fn compile(pattern: &str) -> (r: Result<(), String>)
    ensures
        match r {
            Ok(()) => regex_error(pattern@) is None,
            Err(e) => regex_error(pattern@) == Some(e@),
        },
{
    match fancy_regex::Regex::new(pattern) {
        Ok(_) => Ok(()),
        Err(e) => Err(e.to_string()),
    }
}

/// The pattern matching the names of configuration files.
pub open spec fn config_file_pattern_spec() -> Seq<char> {
    "^"@ + regex_escaped(PRE_COMMIT_CONFIG_YAML@) + "|"@ + regex_escaped(PRE_COMMIT_CONFIG_YML@)
        + "|"@ + regex_escaped(PREK_TOML@) + "$"@
}

/// The pattern matching the names of configuration files.
pub fn config_file_pattern() -> (r: String)
    ensures
        r@ == config_file_pattern_spec(),
{
    let mut v: Vec<char> = Vec::new();
    push_str(&mut v, "^");
    push_str(&mut v, escape(PRE_COMMIT_CONFIG_YAML).as_str());
    push_str(&mut v, "|");
    push_str(&mut v, escape(PRE_COMMIT_CONFIG_YML).as_str());
    push_str(&mut v, "|");
    push_str(&mut v, escape(PREK_TOML).as_str());
    push_str(&mut v, "$");
    string_of(v.as_slice())
}

/// The first error among the `files` and `exclude` patterns of a hook, in that order.
pub open spec fn options_pattern_error(o: HookOptions) -> Option<Seq<char>> {
    match o.files {
        Some(f) if regex_error(f@) is Some => regex_error(f@),
        _ => match o.exclude {
            Some(x) => regex_error(x@),
            None => None,
        },
    }
}

/// Checks that a pattern compiles.
pub fn check_pattern(pattern: &str) -> (r: Result<(), String>)
    ensures
        match r {
            Ok(()) => regex_error(pattern@) is None,
            Err(e) => regex_error(pattern@) == Some(e@),
        },
{
    compile(pattern)
}

/// Checks that the `files` and `exclude` patterns of hook options compile.
pub fn check_option_patterns(o: &HookOptions) -> (r: Result<(), String>)
    ensures
        match r {
            Ok(()) => options_pattern_error(*o) is None,
            Err(e) => options_pattern_error(*o) == Some(e@),
        },
{
    if let Some(f) = &o.files {
        compile(f.as_str())?;
    }
    if let Some(x) = &o.exclude {
        compile(x.as_str())?;
    }
    Ok(())
}

} // verus!
