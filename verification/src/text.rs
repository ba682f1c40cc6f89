//! Character-level text utilities shared by the rest of the library.
use vstd::prelude::*;

verus! {

/// The Unicode `White_Space` property: what `char::is_whitespace`, `str::trim`,
/// `str::split_whitespace` and the regex class `\s` treat as blank.
pub open spec fn is_ws(c: char) -> bool {
    ||| ('\u{9}' <= c && c <= '\u{d}')
    ||| c == ' '
    ||| c == '\u{85}'
    ||| c == '\u{a0}'
    ||| c == '\u{1680}'
    ||| ('\u{2000}' <= c && c <= '\u{200a}')
    ||| c == '\u{2028}'
    ||| c == '\u{2029}'
    ||| c == '\u{202f}'
    ||| c == '\u{205f}'
    ||| c == '\u{3000}'
}

pub fn is_white_space(c: char) -> (b: bool)
    ensures
        b == is_ws(c),
{
    ('\u{9}' <= c && c <= '\u{d}') || c == ' ' || c == '\u{85}' || c == '\u{a0}' || c
        == '\u{1680}' || ('\u{2000}' <= c && c <= '\u{200a}') || c == '\u{2028}' || c
        == '\u{2029}' || c == '\u{202f}' || c == '\u{205f}' || c == '\u{3000}'
}

/// Collects the characters of `s`.
pub fn chars_of(s: &str) -> (v: Vec<char>)
    ensures
        v@ == s@,
{
    let mut v: Vec<char> = Vec::new();
    for c in it: s.chars()
        invariant
            it.seq() == s@,
            v@ == it.seq().take(it.index() as int),
    {
        v.push(c);
    }
    v
}

/// Builds a `String` from characters (`String: FromIterator<char>`).
#[verifier::external_body]
pub(crate) fn string_of(v: &[char]) -> (s: String)
    ensures
        s@ == v@,
{
    v.iter().collect()
}

/// Appends the characters of `s` to `out`.
pub fn push_str(out: &mut Vec<char>, s: &str)
    ensures
        final(out)@ == old(out)@ + s@,
{
    let mut tail = chars_of(s);
    out.append(&mut tail);
}

/// Appends the characters of `s` to `out`.
pub fn push_chars(out: &mut Vec<char>, s: &Vec<char>)
    ensures
        final(out)@ == old(out)@ + s@,
{
    let mut tail = s.clone();
    proof {
        assert(tail@ =~= s@);
    }
    out.append(&mut tail);
}

/// The concatenation `a + b` as a new string.
pub fn concat2(a: &str, b: &str) -> (r: String)
    ensures
        r@ == a@ + b@,
{
    let mut out: Vec<char> = Vec::new();
    push_str(&mut out, a);
    push_str(&mut out, b);
    string_of(out.as_slice())
}

/// The concatenation `a + b + c` as a new string.
pub fn concat3(a: &str, b: &str, c: &str) -> (r: String)
    ensures
        r@ == a@ + b@ + c@,
{
    let mut out: Vec<char> = Vec::new();
    push_str(&mut out, a);
    push_str(&mut out, b);
    push_str(&mut out, c);
    string_of(out.as_slice())
}

/// Equality of two strings by their characters.
pub fn str_eq(a: &str, b: &str) -> (r: bool)
    ensures
        r == (a@ == b@),
{
    let x = chars_of(a);
    let y = chars_of(b);
    if x.len() != y.len() {
        return false;
    }
    let mut i: usize = 0;
    while i < x.len()
        invariant
            x@ == a@,
            y@ == b@,
            x.len() == y.len(),
            i <= x.len(),
            forall|k: int| 0 <= k < i ==> x@[k] == y@[k],
        decreases x.len() - i,
    {
        if x[i] != y[i] {
            return false;
        }
        i = i + 1;
    }
    assert(x@ =~= y@);
    true
}

/// The character `'0' + d` for a decimal digit `d`.
pub open spec fn digit_char(d: nat) -> char {
    if d == 0 {
        '0'
    } else if d == 1 {
        '1'
    } else if d == 2 {
        '2'
    } else if d == 3 {
        '3'
    } else if d == 4 {
        '4'
    } else if d == 5 {
        '5'
    } else if d == 6 {
        '6'
    } else if d == 7 {
        '7'
    } else if d == 8 {
        '8'
    } else {
        '9'
    }
}

/// The value of an ASCII decimal digit.
pub open spec fn digit_value(c: char) -> nat {
    (c as nat - '0' as nat) as nat
}

pub open spec fn is_digit(c: char) -> bool {
    '0' <= c && c <= '9'
}

/// The shortest decimal representation of `n`, as `Display` for integers writes it.
pub open spec fn decimal(n: nat) -> Seq<char>
    decreases n,
{
    if n < 10 {
        seq![digit_char(n)]
    } else {
        decimal(n / 10).push(digit_char(n % 10))
    }
}

/// The decimal representation of `n` (`n.to_string()`).
pub fn decimal_digits(n: u64) -> (r: Vec<char>)
    ensures
        r@ == decimal(n as nat),
{
    let mut out: Vec<char> = Vec::new();
    push_decimal(&mut out, n);
    assert(out@ =~= decimal(n as nat));
    out
}

fn digit_of(d: u64) -> (c: char)
    requires
        d < 10,
    ensures
        c == digit_char(d as nat),
{
    if d == 0 {
        '0'
    } else if d == 1 {
        '1'
    } else if d == 2 {
        '2'
    } else if d == 3 {
        '3'
    } else if d == 4 {
        '4'
    } else if d == 5 {
        '5'
    } else if d == 6 {
        '6'
    } else if d == 7 {
        '7'
    } else if d == 8 {
        '8'
    } else {
        '9'
    }
}

pub fn push_decimal(out: &mut Vec<char>, n: u64)
    ensures
        final(out)@ == old(out)@ + decimal(n as nat),
    decreases n,
{
    if n >= 10 {
        push_decimal(out, n / 10);
    }
    let c = digit_of(n % 10);
    out.push(c);
    proof {
        if n >= 10 {
            assert(decimal(n as nat) == decimal((n / 10) as nat).push(digit_char((n % 10) as nat)));
        }
    }
}

/// The decimal representation of `n` as a string.
pub fn format_decimal(n: u64) -> (r: String)
    ensures
        r@ == decimal(n as nat),
{
    let v = decimal_digits(n);
    string_of(v.as_slice())
}

} // verus!

verus! {

/// A copy of a list of strings.
pub fn clone_strings(v: &Vec<String>) -> (r: Vec<String>)
    ensures
        r@ == v@,
{
    let mut r: Vec<String> = Vec::new();
    let mut i: usize = 0;
    while i < v.len()
        invariant
            i <= v@.len(),
            r@ == v@.take(i as int),
        decreases v.len() - i,
    {
        r.push(v[i].clone());
        proof {
            assert(r@ =~= v@.take(i + 1));
        }
        i = i + 1;
    }
    proof {
        assert(r@ =~= v@);
    }
    r
}

/// A copy of an optional string.
pub fn clone_opt_string(o: &Option<String>) -> (r: Option<String>)
    ensures
        r == *o,
{
    match o {
        Some(s) => Some(s.clone()),
        None => None,
    }
}

/// The characters of each string.
pub open spec fn strs_view(v: Seq<String>) -> Seq<Seq<char>> {
    v.map_values(|s: String| s@)
}

/// The characters of each string of an optional list.
pub open spec fn opt_strs_view(o: Option<Vec<String>>) -> Option<Seq<Seq<char>>> {
    match o {
        Some(v) => Some(strs_view(v@)),
        None => None,
    }
}

/// The characters of an optional string.
pub open spec fn opt_str_view(o: Option<String>) -> Option<Seq<char>> {
    match o {
        Some(s) => Some(s@),
        None => None,
    }
}

/// A copy of an optional list of strings.
pub fn clone_opt_strings(o: &Option<Vec<String>>) -> (r: Option<Vec<String>>)
    ensures
        opt_strs_view(r) == opt_strs_view(*o),
{
    match o {
        Some(v) => Some(clone_strings(v)),
        None => None,
    }
}

} // verus!

verus! {

/// The items joined by `sep` (`[String]::join`).
pub open spec fn join_seq(items: Seq<Seq<char>>, sep: Seq<char>) -> Seq<char>
    decreases items.len(),
{
    if items.len() == 0 {
        Seq::empty()
    } else if items.len() == 1 {
        items[0]
    } else {
        join_seq(items.drop_last(), sep) + sep + items.last()
    }
}

/// The items joined by `sep`.
pub fn join(items: &Vec<String>, sep: &str) -> (r: String)
    ensures
        r@ == join_seq(strs_view(items@), sep@),
{
    let mut out: Vec<char> = Vec::new();
    let mut i: usize = 0;
    while i < items.len()
        invariant
            i <= items@.len(),
            out@ == join_seq(strs_view(items@.take(i as int)), sep@),
        decreases items.len() - i,
    {
        if i > 0 {
            push_str(&mut out, sep);
        }
        push_str(&mut out, items[i].as_str());
        proof {
            let t = strs_view(items@.take(i + 1));
            assert(t.drop_last() =~= strs_view(items@.take(i as int)));
            assert(t.last() == items@[i as int]@);
            if i == 0 {
                assert(out@ =~= t[0]);
            }
        }
        i = i + 1;
    }
    proof {
        assert(items@.take(items@.len() as int) =~= items@);
    }
    string_of(out.as_slice())
}

/// `prefix + s + suffix`.
pub fn wrap(prefix: &str, s: &str, suffix: &str) -> (r: String)
    ensures
        r@ == prefix@ + s@ + suffix@,
{
    concat3(prefix, s, suffix)
}

} // verus!

verus! {

/// An element occurs in `s.push(e)` exactly when it occurs in `s` or is `e`.
pub proof fn lemma_push_contains<T>(s: Seq<T>, e: T, x: T)
    ensures
        s.push(e).contains(x) == (s.contains(x) || x == e),
{
    if s.contains(x) {
        let k = choose|k: int| 0 <= k < s.len() && s[k] == x;
        assert(s.push(e)[k] == x);
    }
    if x == e {
        assert(s.push(e)[s.len() as int] == x);
    }
    if s.push(e).contains(x) {
        let k = choose|k: int| 0 <= k < s.push(e).len() && s.push(e)[k] == x;
        if k < s.len() {
            assert(s[k] == x);
        }
    }
}

} // verus!

verus! {

/// The length of the first piece of `s` when it is cut after each `\n`.
pub open spec fn first_piece_len(s: Seq<char>) -> nat
    decreases s.len(),
{
    if s.len() == 0 {
        0
    } else if s[0] == '\n' {
        1
    } else {
        1 + first_piece_len(s.drop_first())
    }
}

/// `s` cut after each `\n`, the newlines kept (`str::split_inclusive('\n')`).
pub open spec fn split_inclusive_nl(s: Seq<char>) -> Seq<Seq<char>>
    decreases s.len(),
{
    if s.len() == 0 {
        Seq::empty()
    } else {
        let k = first_piece_len(s);
        if 0 < k <= s.len() {
            seq![s.take(k as int)] + split_inclusive_nl(s.skip(k as int))
        } else {
            Seq::empty()
        }
    }
}

proof fn lemma_first_piece_len(s: Seq<char>, m: int)
    requires
        0 <= m <= s.len(),
        forall|i: int| 0 <= i < m ==> s[i] != '\n',
        m == s.len() || s[m] == '\n',
    ensures
        first_piece_len(s) == (if m == s.len() {
            m
        } else {
            m + 1
        }),
    decreases m,
{
    if m > 0 {
        lemma_first_piece_len(s.drop_first(), m - 1);
    }
}

/// Cuts `s` after each `\n`, keeping the newlines.
pub fn split_inclusive_lines(s: &str) -> (r: Vec<String>)
    ensures
        strs_view(r@) == split_inclusive_nl(s@),
{
    let v = chars_of(s);
    let n = v.len();
    let mut r: Vec<String> = Vec::new();
    let mut pos: usize = 0;
    proof {
        assert(v@.skip(0) =~= v@);
    }
    while pos < n
        invariant
            v@ == s@,
            n == v@.len(),
            pos <= n,
            strs_view(r@) + split_inclusive_nl(v@.skip(pos as int)) == split_inclusive_nl(s@),
        decreases n - pos,
    {
        let mut e = pos;
        while e < n && v[e] != '\n'
            invariant
                pos <= e <= n,
                n == v@.len(),
                forall|i: int| pos <= i < e ==> v@[i] != '\n',
            decreases n - e,
        {
            e = e + 1;
        }
        let end = if e < n {
            e + 1
        } else {
            e
        };
        let mut piece: Vec<char> = Vec::new();
        let mut k = pos;
        while k < end
            invariant
                pos <= k <= end,
                end <= n,
                n == v@.len(),
                piece@ == v@.subrange(pos as int, k as int),
            decreases end - k,
        {
            piece.push(v[k]);
            proof {
                assert(piece@ =~= v@.subrange(pos as int, k + 1));
            }
            k = k + 1;
        }
        let ghost rest = v@.skip(pos as int);
        proof {
            lemma_first_piece_len(rest, e - pos);
            assert(rest.take((end - pos) as int) =~= piece@);
            assert(rest.skip((end - pos) as int) =~= v@.skip(end as int));
        }
        let ghost before = strs_view(r@);
        let p = string_of(piece.as_slice());
        r.push(p);
        proof {
            assert(strs_view(r@) =~= before.push(p@));
            assert(split_inclusive_nl(rest) == seq![piece@] + split_inclusive_nl(
                v@.skip(end as int),
            ));
            assert(strs_view(r@) + split_inclusive_nl(v@.skip(end as int)) =~= before
                + split_inclusive_nl(rest));
        }
        pos = end;
    }
    proof {
        assert(v@.skip(n as int) =~= Seq::<char>::empty());
        assert(strs_view(r@) + Seq::<Seq<char>>::empty() =~= strs_view(r@));
    }
    r
}

/// A piece without its line ending: a final `\n`, then a `\r` before it.
pub open spec fn strip_line_ending(p: Seq<char>) -> Seq<char> {
    if p.len() > 0 && p.last() == '\n' {
        let q = p.drop_last();
        if q.len() > 0 && q.last() == '\r' {
            q.drop_last()
        } else {
            q
        }
    } else {
        p
    }
}

/// The lines of `s` without their endings (`str::lines`).
pub open spec fn lines_of(s: Seq<char>) -> Seq<Seq<char>> {
    split_inclusive_nl(s).map_values(|p: Seq<char>| strip_line_ending(p))
}

fn strip_ending(p: &str) -> (r: String)
    ensures
        r@ == strip_line_ending(p@),
{
    let v = chars_of(p);
    let mut n = v.len();
    if n > 0 && v[n - 1] == '\n' {
        n = n - 1;
        if n > 0 && v[n - 1] == '\r' {
            n = n - 1;
        }
    }
    let mut out: Vec<char> = Vec::new();
    let mut k: usize = 0;
    while k < n
        invariant
            k <= n <= v@.len(),
            out@ == v@.take(k as int),
        decreases n - k,
    {
        out.push(v[k]);
        proof {
            assert(out@ =~= v@.take(k + 1));
        }
        k = k + 1;
    }
    proof {
        let q = v@.drop_last();
        if v@.len() > 0 && v@.last() == '\n' {
            if q.len() > 0 && q.last() == '\r' {
                assert(out@ =~= q.drop_last());
            } else {
                assert(out@ =~= q);
            }
        } else {
            assert(out@ =~= v@);
        }
    }
    string_of(out.as_slice())
}

/// The lines of `s` without their endings.
pub fn lines(s: &str) -> (r: Vec<String>)
    ensures
        strs_view(r@) == lines_of(s@),
{
    let pieces = split_inclusive_lines(s);
    let mut r: Vec<String> = Vec::new();
    let mut i: usize = 0;
    while i < pieces.len()
        invariant
            i <= pieces@.len(),
            strs_view(r@) == strs_view(pieces@.take(i as int)).map_values(
                |p: Seq<char>| strip_line_ending(p),
            ),
        decreases pieces.len() - i,
    {
        let ghost before = strs_view(r@);
        let l = strip_ending(pieces[i].as_str());
        r.push(l);
        proof {
            assert(strs_view(r@) =~= before.push(l@));
            assert(strs_view(pieces@.take(i + 1)) =~= strs_view(pieces@.take(i as int)).push(
                pieces@[i as int]@,
            ));
            assert(strs_view(pieces@.take(i + 1)).map_values(|p: Seq<char>| strip_line_ending(p))
                =~= strs_view(pieces@.take(i as int)).map_values(
                |p: Seq<char>| strip_line_ending(p),
            ).push(strip_line_ending(pieces@[i as int]@)));
        }
        i = i + 1;
    }
    proof {
        assert(pieces@.take(pieces@.len() as int) =~= pieces@);
    }
    r
}

} // verus!

verus! {

/// ASCII white space, as `u8::is_ascii_whitespace` defines it.
pub open spec fn is_ascii_ws(c: char) -> bool {
    c == ' ' || c == '\t' || c == '\n' || c == '\u{c}' || c == '\r'
}

/// A separator of words: Unicode white space, or ASCII white space only.
pub open spec fn is_sep(c: char, ascii: bool) -> bool {
    if ascii {
        is_ascii_ws(c)
    } else {
        is_ws(c)
    }
}

fn is_separator(c: char, ascii: bool) -> (b: bool)
    ensures
        b == is_sep(c, ascii),
{
    if ascii {
        c == ' ' || c == '\t' || c == '\n' || c == '\u{c}' || c == '\r'
    } else {
        is_white_space(c)
    }
}

/// The length of the word at the start of `s`.
pub open spec fn word_len(s: Seq<char>, ascii: bool) -> nat
    decreases s.len(),
{
    if s.len() == 0 || is_sep(s[0], ascii) {
        0
    } else {
        1 + word_len(s.drop_first(), ascii)
    }
}

/// The words of `s`: maximal runs of non-separators
/// (`str::split_whitespace`, or `str::split_ascii_whitespace` when `ascii`).
pub open spec fn words_of(s: Seq<char>, ascii: bool) -> Seq<Seq<char>>
    decreases s.len(),
{
    if s.len() == 0 {
        Seq::empty()
    } else if is_sep(s[0], ascii) {
        words_of(s.drop_first(), ascii)
    } else {
        let k = word_len(s, ascii);
        if 0 < k <= s.len() {
            seq![s.take(k as int)] + words_of(s.skip(k as int), ascii)
        } else {
            Seq::empty()
        }
    }
}

proof fn lemma_word_len(s: Seq<char>, ascii: bool, m: int)
    requires
        0 <= m <= s.len(),
        forall|i: int| 0 <= i < m ==> !is_sep(s[i], ascii),
        m == s.len() || is_sep(s[m], ascii),
    ensures
        word_len(s, ascii) == m,
    decreases m,
{
    if m > 0 {
        lemma_word_len(s.drop_first(), ascii, m - 1);
    }
}

/// The words of `s` (`split_whitespace`, or `split_ascii_whitespace` when `ascii`).
pub fn words(s: &str, ascii: bool) -> (r: Vec<String>)
    ensures
        strs_view(r@) == words_of(s@, ascii),
{
    let v = chars_of(s);
    let n = v.len();
    let mut r: Vec<String> = Vec::new();
    let mut pos: usize = 0;
    proof {
        assert(v@.skip(0) =~= v@);
    }
    while pos < n
        invariant
            v@ == s@,
            n == v@.len(),
            pos <= n,
            strs_view(r@) + words_of(v@.skip(pos as int), ascii) == words_of(s@, ascii),
        decreases n - pos,
    {
        let ghost rest = v@.skip(pos as int);
        if is_separator(v[pos], ascii) {
            proof {
                assert(rest.drop_first() =~= v@.skip(pos + 1));
            }
            pos = pos + 1;
        } else {
            let mut e = pos;
            while e < n && !is_separator(v[e], ascii)
                invariant
                    pos <= e <= n,
                    n == v@.len(),
                    forall|i: int| pos <= i < e ==> !is_sep(v@[i], ascii),
                decreases n - e,
            {
                e = e + 1;
            }
            let mut piece: Vec<char> = Vec::new();
            let mut k = pos;
            while k < e
                invariant
                    pos <= k <= e,
                    e <= n,
                    n == v@.len(),
                    piece@ == v@.subrange(pos as int, k as int),
                decreases e - k,
            {
                piece.push(v[k]);
                proof {
                    assert(piece@ =~= v@.subrange(pos as int, k + 1));
                }
                k = k + 1;
            }
            proof {
                lemma_word_len(rest, ascii, e - pos);
                assert(rest.take((e - pos) as int) =~= piece@);
                assert(rest.skip((e - pos) as int) =~= v@.skip(e as int));
            }
            let ghost before = strs_view(r@);
            let p = string_of(piece.as_slice());
            r.push(p);
            proof {
                assert(strs_view(r@) =~= before.push(p@));
                assert(strs_view(r@) + words_of(v@.skip(e as int), ascii) =~= before + words_of(
                    rest,
                    ascii,
                ));
            }
            pos = e;
        }
    }
    proof {
        assert(v@.skip(n as int) =~= Seq::<char>::empty());
        assert(strs_view(r@) + Seq::<Seq<char>>::empty() =~= strs_view(r@));
    }
    r
}

/// The number written by the decimal digits `s`.
pub open spec fn digits_value(s: Seq<char>) -> nat
    decreases s.len(),
{
    if s.len() == 0 {
        0
    } else {
        digits_value(s.drop_last()) * 10 + digit_value(s.last())
    }
}

/// All characters are decimal digits.
pub open spec fn all_digits(s: Seq<char>) -> bool {
    forall|i: int| 0 <= i < s.len() ==> is_digit(#[trigger] s[i])
}

/// What `u64::from_str` makes of `s`: an optional `+`, then one or more
/// decimal digits, of a value that fits in 64 bits.
pub open spec fn parse_u64_spec(s: Seq<char>) -> Option<u64> {
    let t = if s.len() > 0 && s[0] == '+' {
        s.drop_first()
    } else {
        s
    };
    if t.len() == 0 || !all_digits(t) || digits_value(t) > u64::MAX {
        None
    } else {
        Some(digits_value(t) as u64)
    }
}

proof fn lemma_digits_value_grows(s: Seq<char>, k: int)
    requires
        0 <= k <= s.len(),
        all_digits(s),
    ensures
        digits_value(s.take(k)) <= digits_value(s),
    decreases s.len() - k,
{
    if k < s.len() {
        lemma_digits_value_grows(s, k + 1);
        assert(s.take(k + 1).drop_last() =~= s.take(k));
    } else {
        assert(s.take(k) =~= s);
    }
}

/// Parses an unsigned decimal number (`u64::from_str`).
pub fn parse_u64(s: &str) -> (r: Option<u64>)
    ensures
        r == parse_u64_spec(s@),
{
    let v = chars_of(s);
    let start: usize = if v.len() > 0 && v[0] == '+' {
        1
    } else {
        0
    };
    let ghost t = if s@.len() > 0 && s@[0] == '+' {
        s@.drop_first()
    } else {
        s@
    };
    proof {
        assert(t =~= v@.skip(start as int));
    }
    if start == v.len() {
        proof {
            assert(t.len() == 0);
        }
        return None;
    }
    let mut value: u64 = 0;
    let mut i: usize = start;
    while i < v.len()
        invariant
            v@ == s@,
            t == v@.skip(start as int),
            t == (if s@.len() > 0 && s@[0] == '+' {
                s@.drop_first()
            } else {
                s@
            }),
            start <= i <= v@.len(),
            all_digits(t.take(i - start)),
            value as nat == digits_value(t.take(i - start)),
        decreases v.len() - i,
    {
        let c = v[i];
        proof {
            assert(t.take(i + 1 - start).drop_last() =~= t.take(i - start));
            assert(t.take(i + 1 - start).last() == c);
        }
        if !('0' <= c && c <= '9') {
            proof {
                assert(!is_digit(t[i - start]));
                assert(!all_digits(t));
            }
            return None;
        }
        let d: u64 = ((c as u32) - ('0' as u32)) as u64;
        proof {
            assert(d as nat == digit_value(c));
        }
        match value.checked_mul(10) {
            None => {
                proof {
                    assert(all_digits(t.take(i + 1 - start)));
                    if all_digits(t) {
                        lemma_digits_value_grows(t, i + 1 - start);
                    }
                }
                return None;
            },
            Some(m) => match m.checked_add(d) {
                None => {
                    proof {
                        assert(all_digits(t.take(i + 1 - start)));
                        if all_digits(t) {
                            lemma_digits_value_grows(t, i + 1 - start);
                        }
                    }
                    return None;
                },
                Some(n) => {
                    value = n;
                    proof {
                        assert(all_digits(t.take(i + 1 - start)));
                    }
                },
            },
        }
        i = i + 1;
    }
    proof {
        assert(t.take(v@.len() - start) =~= t);
    }
    Some(value)
}

} // verus!

verus! {

/// The number of white-space characters at the start of `s`.
pub open spec fn leading_ws(s: Seq<char>) -> nat
    decreases s.len(),
{
    if s.len() == 0 || !is_ws(s[0]) {
        0
    } else {
        1 + leading_ws(s.drop_first())
    }
}

/// The number of white-space characters at the end of `s`.
pub open spec fn trailing_ws(s: Seq<char>) -> nat
    decreases s.len(),
{
    if s.len() == 0 || !is_ws(s.last()) {
        0
    } else {
        1 + trailing_ws(s.drop_last())
    }
}

/// `s` without leading and trailing white space (`str::trim`).
pub open spec fn trimmed(s: Seq<char>) -> Seq<char> {
    let t = s.skip(leading_ws(s) as int);
    t.take(t.len() - trailing_ws(t))
}

pub proof fn lemma_leading_ws(s: Seq<char>, m: int)
    requires
        0 <= m <= s.len(),
        forall|i: int| 0 <= i < m ==> is_ws(s[i]),
        m == s.len() || !is_ws(s[m]),
    ensures
        leading_ws(s) == m,
    decreases m,
{
    if m > 0 {
        lemma_leading_ws(s.drop_first(), m - 1);
    }
}

pub proof fn lemma_trailing_ws(s: Seq<char>, m: int)
    requires
        0 <= m <= s.len(),
        forall|i: int| s.len() - m <= i < s.len() ==> is_ws(s[i]),
        m == s.len() || !is_ws(s[s.len() - m - 1]),
    ensures
        trailing_ws(s) == m,
    decreases m,
{
    if m > 0 {
        lemma_trailing_ws(s.drop_last(), m - 1);
    }
}

/// `s` without leading and trailing white space.
pub fn trim(s: &str) -> (r: String)
    ensures
        r@ == trimmed(s@),
{
    let v = chars_of(s);
    let n = v.len();
    let mut a: usize = 0;
    while a < n && is_white_space(v[a])
        invariant
            a <= n,
            n == v@.len(),
            forall|i: int| 0 <= i < a ==> is_ws(v@[i]),
        decreases n - a,
    {
        a = a + 1;
    }
    let mut b: usize = n;
    while b > a && is_white_space(v[b - 1])
        invariant
            a <= b <= n,
            n == v@.len(),
            forall|i: int| b <= i < n ==> is_ws(v@[i]),
        decreases b - a,
    {
        b = b - 1;
    }
    let mut out: Vec<char> = Vec::new();
    let mut k = a;
    while k < b
        invariant
            a <= k <= b,
            b <= n,
            n == v@.len(),
            out@ == v@.subrange(a as int, k as int),
        decreases b - k,
    {
        out.push(v[k]);
        proof {
            assert(out@ =~= v@.subrange(a as int, k + 1));
        }
        k = k + 1;
    }
    proof {
        lemma_leading_ws(v@, a as int);
        let t = v@.skip(a as int);
        lemma_trailing_ws(t, (n - b) as int);
        assert(out@ =~= t.take(t.len() - trailing_ws(t)));
    }
    string_of(out.as_slice())
}

} // verus!

verus! {

/// `pat` occurs in `s` at position `i`.
pub open spec fn occurs_at(s: Seq<char>, pat: Seq<char>, i: int) -> bool {
    0 <= i && i + pat.len() <= s.len() && s.subrange(i, i + pat.len()) == pat
}

/// `pat` occurs somewhere in `s` (`str::contains`).
pub open spec fn contains_text(s: Seq<char>, pat: Seq<char>) -> bool {
    exists|i: int| occurs_at(s, pat, i)
}

/// `s` with each occurrence of the non-empty `from` replaced by `to`, scanning
/// from the left and never inside a replaced occurrence (`str::replace`).
pub open spec fn replaced(s: Seq<char>, from: Seq<char>, to: Seq<char>) -> Seq<char>
    decreases s.len(),
{
    if s.len() == 0 || from.len() == 0 {
        s
    } else if from.len() <= s.len() && s.take(from.len() as int) == from {
        to + replaced(s.skip(from.len() as int), from, to)
    } else {
        seq![s[0]] + replaced(s.drop_first(), from, to)
    }
}

pub fn occurs_at_exec(v: &Vec<char>, pat: &Vec<char>, i: usize) -> (b: bool)
    requires
        i <= v@.len(),
    ensures
        b == occurs_at(v@, pat@, i as int),
{
    if pat.len() > v.len() - i {
        return false;
    }
    let mut k: usize = 0;
    while k < pat.len()
        invariant
            k <= pat@.len(),
            i <= v@.len(),
            i + pat.len() <= v.len(),
            forall|j: int| 0 <= j < k ==> v@[i + j] == pat@[j],
        decreases pat.len() - k,
    {
        if v[i + k] != pat[k] {
            proof {
                assert(v@.subrange(i as int, i + pat@.len())[k as int] != pat@[k as int]);
            }
            return false;
        }
        k = k + 1;
    }
    proof {
        assert(v@.subrange(i as int, i + pat@.len()) =~= pat@);
    }
    true
}

/// Whether `pat` occurs in `s`.
pub fn contains_str(s: &str, pat: &str) -> (b: bool)
    ensures
        b == contains_text(s@, pat@),
{
    let v = chars_of(s);
    let p = chars_of(pat);
    if p.len() == 0 {
        proof {
            assert(s@.subrange(0, 0) =~= pat@);
            assert(occurs_at(s@, pat@, 0));
        }
        return true;
    }
    let mut i: usize = 0;
    while i < v.len()
        invariant
            i <= v@.len(),
            v@ == s@,
            p@ == pat@,
            p@.len() > 0,
            forall|j: int| 0 <= j < i ==> !occurs_at(v@, p@, j),
        decreases v.len() - i,
    {
        if occurs_at_exec(&v, &p, i) {
            return true;
        }
        i = i + 1;
    }
    proof {
        assert forall|j: int| !occurs_at(s@, pat@, j) by {
            if 0 <= j < i {
            }
        }
    }
    false
}

/// `s` with each occurrence of `from` replaced by `to`.
pub fn replace_all(s: &str, from: &str, to: &str) -> (r: String)
    requires
        from@.len() > 0,
    ensures
        r@ == replaced(s@, from@, to@),
{
    let v = chars_of(s);
    let f = chars_of(from);
    let t = chars_of(to);
    let n = v.len();
    let mut out: Vec<char> = Vec::new();
    let mut i: usize = 0;
    proof {
        assert(v@.skip(0) =~= v@);
    }
    while i < n
        invariant
            i <= n,
            n == v@.len(),
            v@ == s@,
            f@ == from@,
            t@ == to@,
            f@.len() > 0,
            out@ + replaced(v@.skip(i as int), f@, t@) == replaced(s@, from@, to@),
        decreases n - i,
    {
        let ghost rest = v@.skip(i as int);
        if occurs_at_exec(&v, &f, i) {
            proof {
                assert(rest.take(f@.len() as int) =~= v@.subrange(i as int, i + f@.len()));
                assert(rest.skip(f@.len() as int) =~= v@.skip(i + f@.len()));
                assert(out@ + t@ + replaced(v@.skip(i + f@.len()), f@, t@) =~= out@ + replaced(
                    rest,
                    f@,
                    t@,
                ));
            }
            let mut k: usize = 0;
            let ghost before = out@;
            while k < t.len()
                invariant
                    k <= t@.len(),
                    out@ == before + t@.take(k as int),
                decreases t.len() - k,
            {
                out.push(t[k]);
                proof {
                    assert(out@ =~= before + t@.take(k + 1));
                }
                k = k + 1;
            }
            proof {
                assert(t@.take(t@.len() as int) =~= t@);
            }
            i = i + f.len();
        } else {
            proof {
                if f@.len() <= rest.len() && rest.take(f@.len() as int) == f@ {
                    assert(rest.take(f@.len() as int) =~= v@.subrange(i as int, i + f@.len()));
                }
                assert(rest.drop_first() =~= v@.skip(i + 1));
                assert(rest[0] == v@[i as int]);
                assert(out@.push(v@[i as int]) + replaced(v@.skip(i + 1), f@, t@) =~= out@ + replaced(
                    rest,
                    f@,
                    t@,
                ));
            }
            out.push(v[i]);
            i = i + 1;
        }
    }
    proof {
        assert(v@.skip(n as int) =~= Seq::<char>::empty());
        assert(out@ + Seq::<char>::empty() =~= out@);
    }
    string_of(out.as_slice())
}

} // verus!

