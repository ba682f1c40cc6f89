//! Rewriting the `rev:` lines of a configuration file in place, keeping
//! indentation, spacing and comments, as `prek auto-update` does.
//!
//! A `rev:` line is a line that matches `^(\s+)rev:(\s*)(['"]?)([^\s#]+)(.*)(\r?\n)$`.
use vstd::prelude::*;

use crate::text::{
    chars_of, decimal, is_white_space, is_ws, lemma_leading_ws, leading_ws, push_chars,
    push_decimal, push_str, split_inclusive_lines, split_inclusive_nl, string_of, strs_view, trim,
    trimmed,
};

verus! {

/// A character of the revision itself: neither white space nor `#`.
pub open spec fn is_rev_char(c: char) -> bool {
    !is_ws(c) && c != '#'
}

/// The number of revision characters at the start of `s`.
pub open spec fn rev_run(s: Seq<char>) -> nat
    decreases s.len(),
{
    if s.len() == 0 || !is_rev_char(s[0]) {
        0
    } else {
        1 + rev_run(s.drop_first())
    }
}

proof fn lemma_rev_run(s: Seq<char>, m: int)
    requires
        0 <= m <= s.len(),
        forall|i: int| 0 <= i < m ==> is_rev_char(s[i]),
        m == s.len() || !is_rev_char(s[m]),
    ensures
        rev_run(s) == m,
    decreases m,
{
    if m > 0 {
        lemma_rev_run(s.drop_first(), m - 1);
    }
}

/// Where the parts of a `rev:` line begin and end: `(a, s, e)` with the
/// indentation before `a`, `rev:` at `a`, the spacing up to `s`, the revision
/// from `s` to `e`, and the rest of the line (the trailing text, then `\n`)
/// after `e`. `None` when the line is no `rev:` line.
pub open spec fn rev_line_split(l: Seq<char>) -> Option<(int, int, int)> {
    let a = leading_ws(l) as int;
    let s = a + 4 + leading_ws(l.skip(a + 4)) as int;
    let e = s + rev_run(l.skip(s)) as int;
    if 0 < a && a + 4 <= l.len() && l.subrange(a, a + 4) == "rev:"@ && s < e && e < l.len()
        && l.last() == '\n' && (forall|i: int| e <= i < l.len() - 1 ==> l[i] != '\n') {
        Some((a, s, e))
    } else {
        None
    }
}

/// The comment kept behind the new revision: the `frozen:` note when the
/// revision was frozen, nothing when the old trailing text was such a note,
/// the old trailing text otherwise.
pub open spec fn rev_comment(trailing: Seq<char>, frozen: Option<Seq<char>>) -> Seq<char> {
    match frozen {
        Some(f) => "  # frozen: "@ + f,
        None => if trimmed(trailing).len() >= 9 && trimmed(trailing).take(9) == "# frozen:"@ {
            Seq::empty()
        } else {
            trailing
        },
    }
}

/// The `rev:` line `l` with its revision replaced by `value`.
pub open spec fn rewritten_rev_line(l: Seq<char>, value: Seq<char>, frozen: Option<Seq<char>>) -> Seq<
    char,
> {
    let (a, s, e) = rev_line_split(l).unwrap();
    l.take(a) + "rev:"@ + l.subrange(a + 4, s) + value + rev_comment(
        l.subrange(e, l.len() - 1),
        frozen,
    ) + "\n"@
}

/// The number of `rev:` lines among `ls`.
pub open spec fn rev_line_count(ls: Seq<Seq<char>>) -> nat
    decreases ls.len(),
{
    if ls.len() == 0 {
        0
    } else {
        rev_line_count(ls.drop_last()) + if rev_line_split(ls.last()) is Some {
            1nat
        } else {
            0nat
        }
    }
}

/// The lines `ls` with the `k`-th `rev:` line rewritten to `vals[k]`, when
/// that is given: a new revision and what it was frozen from.
pub open spec fn rewritten_lines(
    ls: Seq<Seq<char>>,
    vals: Seq<Option<(Seq<char>, Option<Seq<char>>)>>,
) -> Seq<Seq<char>>
    decreases ls.len(),
{
    if ls.len() == 0 {
        Seq::empty()
    } else {
        let before = rewritten_lines(ls.drop_last(), vals);
        let k = rev_line_count(ls.drop_last()) as int;
        let l = ls.last();
        if rev_line_split(l) is Some && k < vals.len() && vals[k] is Some {
            before.push(rewritten_rev_line(l, vals[k].unwrap().0, vals[k].unwrap().1))
        } else {
            before.push(l)
        }
    }
}

/// The error when the file no longer has one `rev:` line per remote repository.
pub open spec fn rev_count_message(found: nat, path: Seq<char>, expected: nat) -> Seq<char> {
    "Found "@ + decimal(found) + " `rev:` lines in `"@ + path + "` but expected "@ + decimal(
        expected,
    ) + ", file content may have changed"@
}

/// The new revisions, one per remote repository: the revision text to write
/// and what it was frozen from.
pub open spec fn rev_values_view(v: Seq<Option<(String, Option<String>)>>) -> Seq<
    Option<(Seq<char>, Option<Seq<char>>)>,
> {
    v.map_values(
        |o: Option<(String, Option<String>)>|
            match o {
                Some(p) => Some(
                    (
                        p.0@,
                        match p.1 {
                            Some(f) => Some(f@),
                            None => None,
                        },
                    ),
                ),
                None => None,
            },
    )
}

fn rev_line_split_chars(v: &Vec<char>) -> (r: Option<(usize, usize, usize)>)
    ensures
        match r {
            Some(t) => rev_line_split(v@) == Some((t.0 as int, t.1 as int, t.2 as int)),
            None => rev_line_split(v@) is None,
        },
{
    let n = v.len();
    let mut a: usize = 0;
    while a < n && is_white_space(v[a])
        invariant
            a <= n,
            n == v@.len(),
            forall|i: int| 0 <= i < a ==> is_ws(v@[i]),
        decreases n - a,
    {
        a = a + 1;
    }
    proof {
        lemma_leading_ws(v@, a as int);
    }
    if a == 0 || n < 4 || a > n - 4 {
        return None;
    }
    if !(v[a] == 'r' && v[a + 1] == 'e' && v[a + 2] == 'v' && v[a + 3] == ':') {
        proof {
            reveal_strlit("rev:");
            if v@.subrange(a as int, a + 4) == "rev:"@ {
                assert(v@.subrange(a as int, a + 4)[0] == v@[a as int]);
                assert(v@.subrange(a as int, a + 4)[1] == v@[a + 1]);
                assert(v@.subrange(a as int, a + 4)[2] == v@[a + 2]);
                assert(v@.subrange(a as int, a + 4)[3] == v@[a + 3]);
            }
        }
        return None;
    }
    proof {
        reveal_strlit("rev:");
        assert(v@.subrange(a as int, a + 4) =~= "rev:"@);
    }
    let mut s: usize = a + 4;
    while s < n && is_white_space(v[s])
        invariant
            a + 4 <= s <= n,
            n == v@.len(),
            forall|i: int| a + 4 <= i < s ==> is_ws(v@[i]),
        decreases n - s,
    {
        s = s + 1;
    }
    proof {
        lemma_leading_ws(v@.skip(a + 4), s - (a + 4));
    }
    let mut e: usize = s;
    while e < n && !is_white_space(v[e]) && v[e] != '#'
        invariant
            s <= e <= n,
            n == v@.len(),
            forall|i: int| s <= i < e ==> is_rev_char(v@[i]),
        decreases n - e,
    {
        e = e + 1;
    }
    proof {
        lemma_rev_run(v@.skip(s as int), e - s);
    }
    if e == s || e >= n || v[n - 1] != '\n' {
        proof {
            assert(v@.last() == v@[n - 1]);
        }
        return None;
    }
    let mut i: usize = e;
    while i < n - 1
        invariant
            e <= i <= n - 1,
            n == v@.len(),
            forall|j: int| e <= j < i ==> v@[j] != '\n',
            0 < a,
            a + 4 <= s < e < n,
            leading_ws(v@) == a,
            v@.subrange(a as int, a + 4) == "rev:"@,
            leading_ws(v@.skip(a + 4)) == s - (a + 4),
            rev_run(v@.skip(s as int)) == e - s,
            v@.last() == '\n',
        decreases n - 1 - i,
    {
        if v[i] == '\n' {
            return None;
        }
        i = i + 1;
    }
    Some((a, s, e))
}

/// Whether `line` is a `rev:` line.
pub fn is_rev_line(line: &str) -> (b: bool)
    ensures
        b == rev_line_split(line@) is Some,
{
    let v = chars_of(line);
    rev_line_split_chars(&v).is_some()
}

fn push_range(out: &mut Vec<char>, v: &Vec<char>, from: usize, to: usize)
    requires
        from <= to <= v@.len(),
    ensures
        final(out)@ == old(out)@ + v@.subrange(from as int, to as int),
{
    let ghost start = out@;
    let mut k = from;
    while k < to
        invariant
            from <= k <= to,
            to <= v@.len(),
            out@ == start + v@.subrange(from as int, k as int),
        decreases to - k,
    {
        out.push(v[k]);
        proof {
            assert(out@ =~= start + v@.subrange(from as int, k + 1));
        }
        k = k + 1;
    }
}

fn starts_with_frozen_note(t: &Vec<char>) -> (b: bool)
    ensures
        b == (t@.len() >= 9 && t@.take(9) == "# frozen:"@),
{
    proof {
        reveal_strlit("# frozen:");
    }
    let note = chars_of("# frozen:");
    assert(note@.len() == 9);
    if t.len() < 9 {
        return false;
    }
    let mut i: usize = 0;
    while i < 9
        invariant
            i <= 9,
            t@.len() >= 9,
            note@ == "# frozen:"@,
            note@.len() == 9,
            forall|j: int| 0 <= j < i ==> t@[j] == note@[j],
        decreases 9 - i,
    {
        if t[i] != note[i] {
            proof {
                assert(t@.take(9)[i as int] != note@[i as int]);
            }
            return false;
        }
        i = i + 1;
    }
    proof {
        assert(t@.take(9) =~= note@);
    }
    true
}

/// The line `line` with its revision replaced by `value` and its comment
/// chosen by `rev_comment`; `None` when `line` is no `rev:` line.
pub fn rewrite_rev_line(line: &str, value: &str, frozen: Option<&str>) -> (r: Option<String>)
    ensures
        match r {
            Some(n) => rev_line_split(line@) is Some && n@ == rewritten_rev_line(
                line@,
                value@,
                match frozen {
                    Some(f) => Some(f@),
                    None => None,
                },
            ),
            None => rev_line_split(line@) is None,
        },
{
    let v = chars_of(line);
    let parts = rev_line_split_chars(&v);
    match parts {
        None => None,
        Some((a, s, e)) => {
            let n = v.len();
            let mut out: Vec<char> = Vec::new();
            push_range(&mut out, &v, 0, a);
            push_str(&mut out, "rev:");
            push_range(&mut out, &v, a + 4, s);
            push_str(&mut out, value);
            let ghost head = out@;
            let mut trailing: Vec<char> = Vec::new();
            push_range(&mut trailing, &v, e, n - 1);
            match frozen {
                Some(f) => {
                    push_str(&mut out, "  # frozen: ");
                    push_str(&mut out, f);
                    proof {
                        assert(out@ =~= head + ("  # frozen: "@ + f@));
                    }
                },
                None => {
                    let t = trim(string_of(trailing.as_slice()).as_str());
                    let tv = chars_of(t.as_str());
                    if !starts_with_frozen_note(&tv) {
                        push_chars(&mut out, &trailing);
                    } else {
                        proof {
                            assert(out@ =~= head + Seq::<char>::empty());
                        }
                    }
                },
            }
            push_str(&mut out, "\n");
            proof {
                assert(v@.take(a as int) =~= v@.subrange(0, a as int));
            }
            Some(string_of(out.as_slice()))
        },
    }
}

/// The new revision of a remote repository, and the revision it was frozen
/// from when `--freeze` replaced a tag by its commit.
#[derive(Debug, Clone)]
pub struct Revision {
    pub rev: String,
    pub frozen: Option<String>,
}

impl Revision {
    /// A copy of the revision.
    pub fn duplicate(&self) -> (r: Revision)
        ensures
            r.rev@ == self.rev@,
            opt_view(r.frozen) == opt_view(self.frozen),
    {
        Revision {
            rev: self.rev.clone(),
            frozen: match &self.frozen {
                Some(f) => Some(f.clone()),
                None => None,
            },
        }
    }
}

impl Default for Revision {
    fn default() -> (r: Self)
        ensures
            r.rev@ == Seq::<char>::empty(),
            r.frozen is None,
    {
        Revision { rev: String::new(), frozen: None }
    }
}

fn count_rev_lines(pieces: &Vec<String>) -> (n: usize)
    ensures
        n == rev_line_count(strs_view(pieces@)),
{
    let mut n: usize = 0;
    let mut i: usize = 0;
    while i < pieces.len()
        invariant
            i <= pieces@.len(),
            n == rev_line_count(strs_view(pieces@.take(i as int))),
            n <= i,
        decreases pieces.len() - i,
    {
        proof {
            let t = strs_view(pieces@.take(i + 1));
            assert(t.drop_last() =~= strs_view(pieces@.take(i as int)));
            assert(t.last() == pieces@[i as int]@);
        }
        if is_rev_line(pieces[i].as_str()) {
            n = n + 1;
        }
        i = i + 1;
    }
    proof {
        assert(pieces@.take(pieces@.len() as int) =~= pieces@);
    }
    n
}

fn count_message(found: usize, path: &str, expected: usize) -> (m: String)
    ensures
        m@ == rev_count_message(found as nat, path@, expected as nat),
{
    let mut v: Vec<char> = Vec::new();
    push_str(&mut v, "Found ");
    push_decimal(&mut v, found as u64);
    push_str(&mut v, " `rev:` lines in `");
    push_str(&mut v, path);
    push_str(&mut v, "` but expected ");
    push_decimal(&mut v, expected as u64);
    push_str(&mut v, ", file content may have changed");
    string_of(v.as_slice())
}

/// The configuration text `content` with each `rev:` line rewritten to the
/// new revision of its repository, in order; `values` holds one entry per
/// remote repository, `None` for one that keeps its line. Fails when the
/// number of `rev:` lines is not the number of entries; `path` names the file
/// in that error.
pub fn rewrite_rev_lines(
    content: &str,
    path: &str,
    values: &Vec<Option<(String, Option<String>)>>,
) -> (r: Result<String, String>)
    ensures
        rev_line_count(split_inclusive_nl(content@)) != values@.len() ==> r is Err && r->Err_0@
            == rev_count_message(rev_line_count(split_inclusive_nl(content@)), path@, values@.len()),
        rev_line_count(split_inclusive_nl(content@)) == values@.len() ==> r is Ok && r->Ok_0@
            == rewritten_lines(split_inclusive_nl(content@), rev_values_view(values@)).flatten(),
{
    let pieces = split_inclusive_lines(content);
    let found = count_rev_lines(&pieces);
    if found != values.len() {
        let m = count_message(found, path, values.len());
        proof {
            assert(m@ == rev_count_message(found as nat, path@, values@.len()));
        }
        return Err(m);
    }
    let ghost ps = strs_view(pieces@);
    let ghost vals = rev_values_view(values@);
    let mut out: Vec<char> = Vec::new();
    let mut k: usize = 0;
    let mut i: usize = 0;
    while i < pieces.len()
        invariant
            i <= pieces@.len(),
            ps == strs_view(pieces@),
            vals == rev_values_view(values@),
            vals.len() == values@.len(),
            k == rev_line_count(ps.take(i as int)),
            k <= i,
            out@ == rewritten_lines(ps.take(i as int), vals).flatten(),
        decreases pieces.len() - i,
    {
        proof {
            assert(ps.take(i + 1).drop_last() =~= ps.take(i as int));
            assert(ps.take(i + 1).last() == pieces@[i as int]@);
        }
        let line = pieces[i].as_str();
        let ghost before = rewritten_lines(ps.take(i as int), vals);
        let ghost after = rewritten_lines(ps.take(i + 1), vals);
        let mut replaced = false;
        if is_rev_line(line) && k < values.len() {
            match &values[k] {
                Some(p) => {
                    let frozen = match &p.1 {
                        Some(f) => Some(f.as_str()),
                        None => None,
                    };
                    proof {
                        assert(vals[k as int] == Some(
                            (
                                p.0@,
                                match frozen {
                                    Some(f) => Some(f@),
                                    None => None,
                                },
                            ),
                        ));
                    }
                    let n = rewrite_rev_line(line, p.0.as_str(), frozen);
                    match n {
                        Some(nl) => {
                            proof {
                                assert(after == before.push(nl@));
                                before.lemma_flatten_push(nl@);
                            }
                            push_str(&mut out, nl.as_str());
                            replaced = true;
                        },
                        None => {},
                    }
                },
                None => {},
            }
        }
        if !replaced {
            proof {
                assert(after == before.push(line@));
                before.lemma_flatten_push(line@);
            }
            push_str(&mut out, line);
        }
        if is_rev_line(line) {
            k = k + 1;
        }
        i = i + 1;
    }
    proof {
        assert(pieces@.take(pieces@.len() as int) =~= pieces@);
        assert(ps.take(ps.len() as int) =~= ps);
    }
    Ok(string_of(out.as_slice()))
}

/// What `serde_yaml` writes for the one-entry mapping `{rev: <rev>}`
/// (`None` when it reports an error).
pub uninterp spec fn yaml_rev_document(rev: Seq<char>) -> Option<Seq<char>>;

/// Serialises the mapping `{rev: <rev>}` as a YAML document
/// (`serde_yaml::to_string`); on failure, the error's text.
#[verifier::external_body]
fn serialize_rev_entry(rev: &str) -> (r: Result<String, String>)
    ensures
        match r {
            Ok(doc) => yaml_rev_document(rev@) == Some(doc@),
            Err(_) => yaml_rev_document(rev@) is None,
        },
{
    let entry: std::collections::BTreeMap<&str, &str> = [("rev", rev)].into_iter().collect();
    serde_yaml::to_string(&entry).map_err(|e| e.to_string())
}

/// The position of the first `:` in `s`.
pub open spec fn first_colon(s: Seq<char>) -> Option<int> {
    if exists|i: int| 0 <= i < s.len() && s[i] == ':' {
        Some(choose|i: int| 0 <= i < s.len() && s[i] == ':' && forall|j: int| 0 <= j < i ==> s[j] != ':')
    } else {
        None
    }
}

/// The value of a serialised `key: value` entry: the text after the first
/// `:`, trimmed; `None` when there is no `:`.
pub open spec fn entry_value(doc: Seq<char>) -> Option<Seq<char>> {
    match first_colon(doc) {
        Some(i) => Some(trimmed(doc.skip(i + 1))),
        None => None,
    }
}

/// The text after the first `:` of `doc`, trimmed.
pub fn rev_value(doc: &str) -> (r: Option<String>)
    ensures
        opt_view(r) == entry_value(doc@),
{
    let v = chars_of(doc);
    let mut i: usize = 0;
    while i < v.len()
        invariant
            i <= v@.len(),
            v@ == doc@,
            forall|j: int| 0 <= j < i ==> v@[j] != ':',
        decreases v.len() - i,
    {
        if v[i] == ':' {
            let mut rest: Vec<char> = Vec::new();
            push_range(&mut rest, &v, i + 1, v.len());
            proof {
                assert(rest@ =~= doc@.skip(i + 1));
                let c = choose|c: int| 0 <= c < doc@.len() && doc@[c] == ':' && forall|j: int| 0 <= j < c ==> doc@[j] != ':';
                assert(0 <= i < doc@.len() && doc@[i as int] == ':' && forall|j: int| 0 <= j < i ==> doc@[j] != ':');
                if c < i {
                    assert(false);
                } else if c > i {
                    assert(doc@[i as int] != ':');
                }
            }
            return Some(trim(string_of(rest.as_slice()).as_str()));
        }
        i = i + 1;
    }
    None
}

/// A string option by its view.
pub open spec fn opt_view(o: Option<String>) -> Option<Seq<char>> {
    match o {
        Some(s) => Some(s@),
        None => None,
    }
}

/// The new revisions as views.
pub open spec fn revisions_view(v: Seq<Option<Revision>>) -> Seq<Option<(Seq<char>, Option<Seq<char>>)>> {
    v.map_values(|o: Option<Revision>| match o {
        Some(r) => Some((r.rev@, opt_view(r.frozen))),
        None => None,
    })
}

/// Whether every new revision can be written: `serde_yaml` serialises it and
/// the result has a value.
pub open spec fn all_serializable(revs: Seq<Option<(Seq<char>, Option<Seq<char>>)>>) -> bool {
    forall|k: int|
        0 <= k < revs.len() && #[trigger] revs[k] is Some ==> yaml_rev_document(revs[k].unwrap().0) is Some
            && entry_value(yaml_rev_document(revs[k].unwrap().0)->0) is Some
}

/// The revisions as they are written: each replaced by the YAML form of its text.
pub open spec fn written_values(revs: Seq<Option<(Seq<char>, Option<Seq<char>>)>>) -> Seq<
    Option<(Seq<char>, Option<Seq<char>>)>,
> {
    revs.map_values(|o: Option<(Seq<char>, Option<Seq<char>>)>| match o {
        Some(p) => Some((entry_value(yaml_rev_document(p.0)->0)->0, p.1)),
        None => None,
    })
}

/// The configuration text `content` with the `rev:` line of each updated
/// remote repository set to its new revision as `serde_yaml` writes it, and
/// with the `frozen:` comments kept up to date. `revisions` holds one entry per
/// remote repository of the file, in order, `None` for one that was not updated.
/// Fails when the number of `rev:` lines differs (with the message naming
/// `path`), and when a revision cannot be serialised.
#[verifier::rlimit(40)]
pub fn write_new_config_text(content: &str, path: &str, revisions: &Vec<Option<Revision>>) -> (r: Result<
    String,
    String,
>)
    ensures
        rev_line_count(split_inclusive_nl(content@)) != revisions@.len() ==> r is Err && r->Err_0@
            == rev_count_message(
            rev_line_count(split_inclusive_nl(content@)),
            path@,
            revisions@.len(),
        ),
        rev_line_count(split_inclusive_nl(content@)) == revisions@.len() ==> (r is Ok <==> all_serializable(
            revisions_view(revisions@),
        )),
        r is Ok ==> r->Ok_0@ == rewritten_lines(
            split_inclusive_nl(content@),
            written_values(revisions_view(revisions@)),
        ).flatten(),
{
    let pieces = split_inclusive_lines(content);
    let found = count_rev_lines(&pieces);
    if found != revisions.len() {
        return Err(count_message(found, path, revisions.len()));
    }
    let ghost revs = revisions_view(revisions@);
    let mut values: Vec<Option<(String, Option<String>)>> = Vec::new();
    let mut k: usize = 0;
    while k < revisions.len()
        invariant
            k <= revisions@.len(),
            revs == revisions_view(revisions@),
            revs.len() == revisions@.len(),
            strs_view(pieces@) == split_inclusive_nl(content@),
            found == rev_line_count(split_inclusive_nl(content@)),
            found == revisions@.len(),
            values@.len() == k,
            forall|j: int| 0 <= j < k ==> #[trigger] rev_values_view(values@)[j] == written_values(revs)[j],
            forall|j: int|
                0 <= j < k && #[trigger] revs[j] is Some ==> yaml_rev_document(revs[j].unwrap().0) is Some
                    && entry_value(yaml_rev_document(revs[j].unwrap().0)->0) is Some,
        decreases revisions.len() - k,
    {
        let ghost before = values@;
        match &revisions[k] {
            Some(rv) => {
                let doc = serialize_rev_entry(rv.rev.as_str());
                match doc {
                    Ok(d) => match rev_value(d.as_str()) {
                        Some(value) => {
                            let frozen = match &rv.frozen {
                                Some(f) => Some(f.clone()),
                                None => None,
                            };
                            proof {
                                assert(opt_view(frozen) == opt_view(rv.frozen));
                            }
                            values.push(Some((value, frozen)));
                            proof {
                                assert(revs[k as int] == Some((rv.rev@, opt_view(rv.frozen))));
                                assert(written_values(revs)[k as int] == Some(
                                    (entry_value(yaml_rev_document(rv.rev@)->0)->0, opt_view(rv.frozen)),
                                ));
                                assert(rev_values_view(values@)[k as int] == Some(
                                    (value@, opt_view(frozen)),
                                ));
                            }
                        },
                        None => {
                            proof {
                                assert(revs[k as int] is Some);
                            }
                            return Err("Failed to split serialized revision".to_string());
                        },
                    },
                    Err(e) => {
                        proof {
                            assert(revs[k as int] is Some);
                        }
                        return Err(e);
                    },
                }
            },
            None => {
                values.push(None);
                proof {
                    assert(revs[k as int] is None);
                    assert(rev_values_view(values@)[k as int] is None);
                }
            },
        }
        proof {
            assert forall|j: int| 0 <= j < k + 1 implies #[trigger] rev_values_view(values@)[j]
                == written_values(revs)[j] by {
                if j < k {
                    assert(rev_values_view(before)[j] == written_values(revs)[j]);
                    assert(values@[j] == before[j]);
                }
            }
        }
        k = k + 1;
    }
    proof {
        assert(rev_values_view(values@) =~= written_values(revs));
    }
    rewrite_rev_lines(content, path, &values)
}

proof fn lemma_flatten_split(s: Seq<char>)
    ensures
        split_inclusive_nl(s).flatten() == s,
    decreases s.len(),
{
    if s.len() > 0 {
        let k = crate::text::first_piece_len(s);
        lemma_first_piece_positive(s);
        lemma_flatten_split(s.skip(k as int));
        let rest = split_inclusive_nl(s.skip(k as int));
        let all = split_inclusive_nl(s);
        assert(all == seq![s.take(k as int)] + rest);
        assert(all.first() == s.take(k as int));
        assert(all.drop_first() =~= rest);
        assert(s.take(k as int) + s.skip(k as int) =~= s);
    }
}

proof fn lemma_first_piece_positive(s: Seq<char>)
    requires
        s.len() > 0,
    ensures
        0 < crate::text::first_piece_len(s) <= s.len(),
    decreases s.len(),
{
    if s[0] != '\n' {
        if s.len() > 1 {
            lemma_first_piece_positive(s.drop_first());
        } else {
            assert(s.drop_first().len() == 0);
            assert(crate::text::first_piece_len(s.drop_first()) == 0);
        }
    }
}

/// Rewriting keeps every line: as many lines come out as go in, and each line
/// that is not a `rev:` line comes out unchanged.
pub proof fn rewrite_keeps_other_lines(
    ls: Seq<Seq<char>>,
    vals: Seq<Option<(Seq<char>, Option<Seq<char>>)>>,
)
    ensures
        rewritten_lines(ls, vals).len() == ls.len(),
        forall|i: int|
            0 <= i < ls.len() && rev_line_split(#[trigger] ls[i]) is None ==> rewritten_lines(ls, vals)[i]
                == ls[i],
    decreases ls.len(),
{
    if ls.len() > 0 {
        rewrite_keeps_other_lines(ls.drop_last(), vals);
        let before = rewritten_lines(ls.drop_last(), vals);
        assert forall|i: int|
            0 <= i < ls.len() && rev_line_split(#[trigger] ls[i]) is None implies rewritten_lines(ls, vals)[i]
            == ls[i] by {
            if i < ls.len() - 1 {
                assert(ls.drop_last()[i] == ls[i]);
            }
        }
    }
}

/// With no repository updated, rewriting gives back the lines unchanged.
pub proof fn rewrite_without_updates_is_identity(ls: Seq<Seq<char>>, n: nat)
    ensures
        rewritten_lines(ls, Seq::new(n, |k: int| None::<(Seq<char>, Option<Seq<char>>)>)) == ls,
    decreases ls.len(),
{
    if ls.len() > 0 {
        rewrite_without_updates_is_identity(ls.drop_last(), n);
        assert(rewritten_lines(ls, Seq::new(n, |k: int| None::<(Seq<char>, Option<Seq<char>>)>)) =~= ls);
    }
}

/// With no repository updated, the configuration text is written back as it was.
pub proof fn config_without_updates_unchanged(content: Seq<char>, n: nat)
    ensures
        rewritten_lines(
            split_inclusive_nl(content),
            Seq::new(n, |k: int| None::<(Seq<char>, Option<Seq<char>>)>),
        ).flatten() == content,
{
    rewrite_without_updates_is_identity(split_inclusive_nl(content), n);
    lemma_flatten_split(content);
}

proof fn lemma_leading_ws_props(t: Seq<char>)
    ensures
        leading_ws(t) <= t.len(),
        forall|i: int| 0 <= i < leading_ws(t) ==> is_ws(#[trigger] t[i]),
        leading_ws(t) < t.len() ==> !is_ws(t[leading_ws(t) as int]),
    decreases t.len(),
{
    if t.len() > 0 && is_ws(t[0]) {
        lemma_leading_ws_props(t.drop_first());
        assert forall|i: int| 0 <= i < leading_ws(t) implies is_ws(#[trigger] t[i]) by {
            if i > 0 {
                assert(t[i] == t.drop_first()[i - 1]);
            }
        }
    }
}

proof fn lemma_rev_run_props(t: Seq<char>)
    ensures
        rev_run(t) <= t.len(),
        forall|i: int| 0 <= i < rev_run(t) ==> is_rev_char(#[trigger] t[i]),
        rev_run(t) < t.len() ==> !is_rev_char(t[rev_run(t) as int]),
    decreases t.len(),
{
    if t.len() > 0 && is_rev_char(t[0]) {
        lemma_rev_run_props(t.drop_first());
        assert forall|i: int| 0 <= i < rev_run(t) implies is_rev_char(#[trigger] t[i]) by {
            if i > 0 {
                assert(t[i] == t.drop_first()[i - 1]);
            }
        }
    }
}

/// A revision that fits a `rev:` line: not empty, without white space or `#`.
pub open spec fn is_rev_text(v: Seq<char>) -> bool {
    v.len() > 0 && forall|i: int| 0 <= i < v.len() ==> is_rev_char(#[trigger] v[i])
}

/// A rewritten `rev:` line is still a `rev:` line, with the same indentation,
/// and the revision it holds is the new one: reading it back gives what was
/// written (for a revision that fits a `rev:` line and a one-line `frozen` note).
pub proof fn rewritten_line_holds_new_revision(l: Seq<char>, value: Seq<char>, frozen: Option<Seq<char>>)
    requires
        rev_line_split(l) is Some,
        is_rev_text(value),
        frozen matches Some(f) ==> !f.contains('\n'),
    ensures
        ({
            let n = rewritten_rev_line(l, value, frozen);
            &&& rev_line_split(n) is Some
            &&& rev_line_split(n).unwrap().0 == rev_line_split(l).unwrap().0
            &&& n.take(rev_line_split(n).unwrap().0) == l.take(rev_line_split(l).unwrap().0)
            &&& n.subrange(rev_line_split(n).unwrap().1, rev_line_split(n).unwrap().2) == value
        }),
{
    reveal_strlit("rev:");
    reveal_strlit("\n");
    reveal_strlit("  # frozen: ");
    let (a, s, e) = rev_line_split(l).unwrap();
    let trailing = l.subrange(e, l.len() - 1);
    let c = rev_comment(trailing, frozen);
    let n = rewritten_rev_line(l, value, frozen);
    let e2 = s + value.len();
    assert(n == l.take(a) + "rev:"@ + l.subrange(a + 4, s) + value + c + "\n"@);
    assert(n.len() == e2 + c.len() + 1);
    lemma_leading_ws_props(l);
    lemma_leading_ws_props(l.skip(a + 4));
    lemma_rev_run_props(l.skip(s));
    // The indentation.
    assert forall|i: int| 0 <= i < a implies is_ws(#[trigger] n[i]) by {
        assert(n[i] == l[i]);
    }
    assert(n[a] == 'r');
    crate::text::lemma_leading_ws(n, a);
    assert(n.subrange(a, a + 4) =~= "rev:"@);
    // The spacing after `rev:`.
    let sp = n.skip(a + 4);
    assert forall|i: int| 0 <= i < s - (a + 4) implies is_ws(#[trigger] sp[i]) by {
        assert(sp[i] == l[a + 4 + i]);
        assert(l.skip(a + 4)[i] == l[a + 4 + i]);
    }
    assert(sp[s - (a + 4)] == value[0]);
    crate::text::lemma_leading_ws(sp, s - (a + 4));
    // The revision.
    let rv = n.skip(s);
    assert forall|i: int| 0 <= i < value.len() implies is_rev_char(#[trigger] rv[i]) by {
        assert(rv[i] == value[i]);
    }
    assert(!is_rev_char(rv[value.len() as int])) by {
        assert(rv[value.len() as int] == n[e2]);
        if c.len() == 0 {
            assert(n[e2] == '\n');
        } else {
            assert(n[e2] == c[0]);
            match frozen {
                Some(f) => {
                    assert(c[0] == ' ');
                },
                None => {
                    assert(c == trailing);
                    assert(trailing[0] == l[e]);
                    assert(l.skip(s)[e - s] == l[e]);
                },
            }
        }
    }
    lemma_rev_run(rv, value.len() as int);
    // The rest of the line.
    assert(n.last() == '\n');
    assert forall|i: int| e2 <= i < n.len() - 1 implies n[i] != '\n' by {
        assert(n[i] == c[i - e2]);
        match frozen {
            Some(f) => {
                let pre = "  # frozen: "@;
                if i - e2 < pre.len() {
                    assert(c[i - e2] == pre[i - e2]);
                } else {
                    assert(c[i - e2] == f[i - e2 - pre.len()]);
                    if f[i - e2 - pre.len()] == '\n' {
                        assert(f.contains('\n'));
                    }
                }
            },
            None => {
                if c.len() > 0 {
                    assert(c == trailing);
                    assert(trailing[i - e2] == l[e + (i - e2)]);
                }
            },
        }
    }
    assert(n.take(a) =~= l.take(a));
    assert(n.subrange(s, e2) =~= value);
}

} // verus!
