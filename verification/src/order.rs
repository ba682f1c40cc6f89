//! Stable ordering by a key: a rank (higher first), then a path compared part
//! by part, each part by its characters (as `Path` and `str` compare).
use vstd::prelude::*;

use crate::text::chars_of;

verus! {

/// `a` comes before `b` in the order of `str` (by character, a prefix first).
pub open spec fn chars_lt(a: Seq<char>, b: Seq<char>) -> bool
    decreases a.len(),
{
    if a.len() == 0 {
        b.len() > 0
    } else if b.len() == 0 {
        false
    } else if a[0] != b[0] {
        a[0] < b[0]
    } else {
        chars_lt(a.drop_first(), b.drop_first())
    }
}

/// `a` comes before `b` when compared part by part, a prefix first.
pub open spec fn parts_lt(a: Seq<Seq<char>>, b: Seq<Seq<char>>) -> bool
    decreases a.len(),
{
    if a.len() == 0 {
        b.len() > 0
    } else if b.len() == 0 {
        false
    } else if a[0] != b[0] {
        chars_lt(a[0], b[0])
    } else {
        parts_lt(a.drop_first(), b.drop_first())
    }
}

/// The key `a` comes before the key `b`: a higher rank first, then the smaller path.
pub open spec fn key_lt(a: (nat, Seq<Seq<char>>), b: (nat, Seq<Seq<char>>)) -> bool {
    a.0 > b.0 || (a.0 == b.0 && parts_lt(a.1, b.1))
}

pub proof fn lemma_chars_lt_irreflexive(a: Seq<char>)
    ensures
        !chars_lt(a, a),
    decreases a.len(),
{
    if a.len() > 0 {
        lemma_chars_lt_irreflexive(a.drop_first());
    }
}

pub proof fn lemma_chars_lt_transitive(a: Seq<char>, b: Seq<char>, c: Seq<char>)
    requires
        chars_lt(a, b),
        chars_lt(b, c),
    ensures
        chars_lt(a, c),
    decreases a.len(),
{
    if a.len() > 0 && b.len() > 0 && c.len() > 0 && a[0] == b[0] && b[0] == c[0] {
        lemma_chars_lt_transitive(a.drop_first(), b.drop_first(), c.drop_first());
    }
}

pub proof fn lemma_chars_lt_total(a: Seq<char>, b: Seq<char>)
    ensures
        chars_lt(a, b) || chars_lt(b, a) || a == b,
    decreases a.len(),
{
    if a.len() > 0 && b.len() > 0 && a[0] == b[0] {
        lemma_chars_lt_total(a.drop_first(), b.drop_first());
        if a.drop_first() == b.drop_first() {
            assert(a =~= seq![a[0]] + a.drop_first());
            assert(b =~= seq![b[0]] + b.drop_first());
        }
    } else if a.len() > 0 && b.len() > 0 {
    } else if a.len() == 0 && b.len() == 0 {
        assert(a =~= b);
    }
}

pub proof fn lemma_parts_lt_irreflexive(a: Seq<Seq<char>>)
    ensures
        !parts_lt(a, a),
    decreases a.len(),
{
    if a.len() > 0 {
        lemma_parts_lt_irreflexive(a.drop_first());
    }
}

pub proof fn lemma_parts_lt_transitive(a: Seq<Seq<char>>, b: Seq<Seq<char>>, c: Seq<Seq<char>>)
    requires
        parts_lt(a, b),
        parts_lt(b, c),
    ensures
        parts_lt(a, c),
    decreases a.len(),
{
    if a.len() > 0 && b.len() > 0 && c.len() > 0 {
        if a[0] == b[0] && b[0] == c[0] {
            lemma_parts_lt_transitive(a.drop_first(), b.drop_first(), c.drop_first());
        } else if a[0] != b[0] && b[0] != c[0] {
            lemma_chars_lt_transitive(a[0], b[0], c[0]);
            if a[0] == c[0] {
                lemma_chars_lt_irreflexive(a[0]);
            }
        }
    }
}

pub proof fn lemma_parts_lt_total(a: Seq<Seq<char>>, b: Seq<Seq<char>>)
    ensures
        parts_lt(a, b) || parts_lt(b, a) || a == b,
    decreases a.len(),
{
    if a.len() > 0 && b.len() > 0 && a[0] == b[0] {
        lemma_parts_lt_total(a.drop_first(), b.drop_first());
        if a.drop_first() == b.drop_first() {
            assert(a =~= seq![a[0]] + a.drop_first());
            assert(b =~= seq![b[0]] + b.drop_first());
        }
    } else if a.len() > 0 && b.len() > 0 {
        lemma_chars_lt_total(a[0], b[0]);
    } else if a.len() == 0 && b.len() == 0 {
        assert(a =~= b);
    }
}

/// The key order is a strict order in which keys that neither precede the
/// other are equal.
pub proof fn key_order_is_strict_and_total(
    a: (nat, Seq<Seq<char>>),
    b: (nat, Seq<Seq<char>>),
    c: (nat, Seq<Seq<char>>),
)
    ensures
        !key_lt(a, a),
        key_lt(a, b) && key_lt(b, c) ==> key_lt(a, c),
        key_lt(a, b) || key_lt(b, a) || a == b,
{
    lemma_parts_lt_irreflexive(a.1);
    if key_lt(a, b) && key_lt(b, c) && a.0 == b.0 && b.0 == c.0 {
        lemma_parts_lt_transitive(a.1, b.1, c.1);
    }
    lemma_parts_lt_total(a.1, b.1);
}

/// The keys as views.
pub open spec fn keys_view(keys: Seq<(usize, Vec<String>)>) -> Seq<(nat, Seq<Seq<char>>)> {
    keys.map_values(
        |k: (usize, Vec<String>)| (k.0 as nat, k.1@.map_values(|s: String| s@)),
    )
}

/// `order` lists each of `0..n` once.
pub open spec fn is_permutation(order: Seq<usize>, n: nat) -> bool {
    &&& order.len() == n
    &&& forall|i: int| 0 <= i < order.len() ==> order[i] < n
    &&& forall|i: int, j: int| 0 <= i < j < order.len() ==> order[i] != order[j]
}

/// Listing `keys` in the order `order` puts no key after one it precedes, and
/// keeps equal keys in their original order.
pub open spec fn sorted_stably(keys: Seq<(nat, Seq<Seq<char>>)>, order: Seq<usize>) -> bool {
    forall|i: int, j: int|
        0 <= i < j < order.len() ==> !key_lt(keys[order[j] as int], keys[order[i] as int]) && (
        keys[order[j] as int] == keys[order[i] as int] ==> order[i] < order[j])
}

fn chars_less(a: &Vec<char>, b: &Vec<char>) -> (r: bool)
    ensures
        r == chars_lt(a@, b@),
{
    let mut i: usize = 0;
    proof {
        assert(a@.skip(0) =~= a@);
        assert(b@.skip(0) =~= b@);
    }
    while i < a.len() && i < b.len() && a[i] == b[i]
        invariant
            i <= a@.len(),
            i <= b@.len(),
            chars_lt(a@, b@) == chars_lt(a@.skip(i as int), b@.skip(i as int)),
        decreases a.len() - i,
    {
        proof {
            let sa = a@.skip(i as int);
            let sb = b@.skip(i as int);
            assert(sa.drop_first() =~= a@.skip(i + 1));
            assert(sb.drop_first() =~= b@.skip(i + 1));
            assert(sa[0] == a@[i as int]);
            assert(sb[0] == b@[i as int]);
        }
        i = i + 1;
    }
    let ghost sa = a@.skip(i as int);
    let ghost sb = b@.skip(i as int);
    if i == a.len() {
        i < b.len()
    } else if i == b.len() {
        false
    } else {
        proof {
            assert(sa[0] == a@[i as int]);
            assert(sb[0] == b@[i as int]);
        }
        a[i] < b[i]
    }
}

fn parts_less(a: &Vec<Vec<char>>, b: &Vec<Vec<char>>) -> (r: bool)
    ensures
        r == parts_lt(a@.map_values(|v: Vec<char>| v@), b@.map_values(|v: Vec<char>| v@)),
{
    let ghost va = a@.map_values(|v: Vec<char>| v@);
    let ghost vb = b@.map_values(|v: Vec<char>| v@);
    let mut i: usize = 0;
    proof {
        assert(va.skip(0) =~= va);
        assert(vb.skip(0) =~= vb);
    }
    while i < a.len() && i < b.len() && vec_chars_eq(&a[i], &b[i])
        invariant
            i <= a@.len(),
            i <= b@.len(),
            va == a@.map_values(|v: Vec<char>| v@),
            vb == b@.map_values(|v: Vec<char>| v@),
            parts_lt(va, vb) == parts_lt(va.skip(i as int), vb.skip(i as int)),
        decreases a.len() - i,
    {
        proof {
            let sa = va.skip(i as int);
            let sb = vb.skip(i as int);
            assert(sa.drop_first() =~= va.skip(i + 1));
            assert(sb.drop_first() =~= vb.skip(i + 1));
            assert(sa[0] == va[i as int]);
            assert(sb[0] == vb[i as int]);
        }
        i = i + 1;
    }
    let ghost sa = va.skip(i as int);
    let ghost sb = vb.skip(i as int);
    if i == a.len() {
        i < b.len()
    } else if i == b.len() {
        false
    } else {
        proof {
            assert(sa[0] == va[i as int]);
            assert(sb[0] == vb[i as int]);
        }
        chars_less(&a[i], &b[i])
    }
}

fn vec_chars_eq(a: &Vec<char>, b: &Vec<char>) -> (r: bool)
    ensures
        r == (a@ == b@),
{
    if a.len() != b.len() {
        return false;
    }
    let mut i: usize = 0;
    while i < a.len()
        invariant
            i <= a@.len(),
            a@.len() == b@.len(),
            forall|j: int| 0 <= j < i ==> a@[j] == b@[j],
        decreases a.len() - i,
    {
        if a[i] != b[i] {
            return false;
        }
        i = i + 1;
    }
    proof {
        assert(a@ =~= b@);
    }
    true
}

proof fn lemma_key_facts(a: (nat, Seq<Seq<char>>), b: (nat, Seq<Seq<char>>), c: (nat, Seq<Seq<char>>))
    ensures
        key_lt(a, b) ==> !key_lt(b, a) && a != b,
        key_lt(a, b) && !key_lt(c, b) ==> key_lt(a, c),
{
    key_order_is_strict_and_total(a, b, a);
    key_order_is_strict_and_total(b, a, b);
    key_order_is_strict_and_total(a, b, c);
    key_order_is_strict_and_total(b, c, b);
    key_order_is_strict_and_total(c, b, c);
}

proof fn lemma_insert_sorted(keys: Seq<(nat, Seq<Seq<char>>)>, order: Seq<usize>, k: usize, pos: int)
    requires
        is_permutation(order, k as nat),
        k < keys.len(),
        sorted_stably(keys, order),
        0 <= pos <= order.len(),
        forall|q: int| 0 <= q < pos ==> !key_lt(keys[k as int], #[trigger] keys[order[q] as int]),
        pos < order.len() ==> key_lt(keys[k as int], keys[order[pos] as int]),
    ensures
        is_permutation(order.insert(pos, k), k as nat + 1),
        sorted_stably(keys, order.insert(pos, k)),
{
    let o2 = order.insert(pos, k);
    order.insert_ensures(pos, k);
    assert forall|i: int, j: int| 0 <= i < j < o2.len() implies o2[i] != o2[j] by {
        if i < pos && j > pos {
            assert(o2[j] == order[j - 1]);
        } else if i > pos {
            assert(o2[i] == order[i - 1]);
            assert(o2[j] == order[j - 1]);
        }
    }
    assert forall|i: int| 0 <= i < o2.len() implies o2[i] < k as nat + 1 by {
        if i > pos {
            assert(o2[i] == order[i - 1]);
        }
    }
    assert forall|i: int, j: int| 0 <= i < j < o2.len() implies !key_lt(
        keys[o2[j] as int],
        keys[o2[i] as int],
    ) && (keys[o2[j] as int] == keys[o2[i] as int] ==> o2[i] < o2[j]) by {
        if j < pos {
        } else if i < pos && j == pos {
            assert(!key_lt(keys[k as int], keys[order[i] as int]));
            assert(order[i] < k);
        } else if i < pos && j > pos {
            assert(o2[j] == order[j - 1]);
        } else if i == pos {
            assert(o2[j] == order[j - 1]);
            let a = keys[k as int];
            let b = keys[order[pos] as int];
            let c = keys[order[j - 1] as int];
            if j - 1 > pos {
                assert(!key_lt(c, b));
            }
            lemma_key_facts(a, b, c);
            lemma_key_facts(a, c, a);
        } else {
            assert(o2[i] == order[i - 1]);
            assert(o2[j] == order[j - 1]);
        }
    }
}

/// The order in which to list entries with the keys `keys`: each key's rank,
/// and its path as a list of parts.
pub fn stable_order(keys: &Vec<(usize, Vec<String>)>) -> (order: Vec<usize>)
    ensures
        is_permutation(order@, keys@.len()),
        sorted_stably(keys_view(keys@), order@),
{
    let ghost kv = keys_view(keys@);
    let mut prepared: Vec<(usize, Vec<Vec<char>>)> = Vec::new();
    let mut i: usize = 0;
    while i < keys.len()
        invariant
            i <= keys@.len(),
            kv == keys_view(keys@),
            prepared@.len() == i,
            forall|j: int|
                0 <= j < i ==> (#[trigger] prepared@[j]).0 as nat == kv[j].0 && prepared@[j].1@.map_values(
                    |v: Vec<char>| v@,
                ) == kv[j].1,
        decreases keys.len() - i,
    {
        let mut parts: Vec<Vec<char>> = Vec::new();
        let mut q: usize = 0;
        while q < keys[i].1.len()
            invariant
                i < keys@.len(),
                q <= keys@[i as int].1@.len(),
                parts@.len() == q,
                forall|r: int| 0 <= r < q ==> (#[trigger] parts@[r])@ == keys@[i as int].1@[r]@,
            decreases keys@[i as int].1@.len() - q,
        {
            parts.push(chars_of(keys[i].1[q].as_str()));
            q = q + 1;
        }
        proof {
            assert(parts@.map_values(|v: Vec<char>| v@) =~= kv[i as int].1);
        }
        prepared.push((keys[i].0, parts));
        i = i + 1;
    }
    let n = keys.len();
    let mut order: Vec<usize> = Vec::new();
    let mut k: usize = 0;
    while k < n
        invariant
            k <= n,
            n == keys@.len(),
            kv.len() == n,
            prepared@.len() == n,
            forall|j: int|
                0 <= j < n ==> (#[trigger] prepared@[j]).0 as nat == kv[j].0 && prepared@[j].1@.map_values(
                    |v: Vec<char>| v@,
                ) == kv[j].1,
            is_permutation(order@, k as nat),
            sorted_stably(kv, order@),
        decreases n - k,
    {
        let mut pos: usize = 0;
        while pos < order.len() && !key_less(&prepared, k, order[pos])
            invariant
                pos <= order@.len(),
                k < n,
                prepared@.len() == n,
                forall|j: int|
                    0 <= j < n ==> (#[trigger] prepared@[j]).0 as nat == kv[j].0 && prepared@[j].1@.map_values(
                        |v: Vec<char>| v@,
                    ) == kv[j].1,
                is_permutation(order@, k as nat),
                forall|q: int| 0 <= q < pos ==> !key_lt(kv[k as int], #[trigger] kv[order@[q] as int]),
            decreases order.len() - pos,
        {
            pos = pos + 1;
        }
        proof {
            lemma_insert_sorted(kv, order@, k, pos as int);
        }
        order.insert(pos, k);
        k = k + 1;
    }
    order
}

fn key_less(prepared: &Vec<(usize, Vec<Vec<char>>)>, a: usize, b: usize) -> (r: bool)
    requires
        a < prepared@.len(),
        b < prepared@.len(),
    ensures
        r == key_lt(
            (prepared@[a as int].0 as nat, prepared@[a as int].1@.map_values(|v: Vec<char>| v@)),
            (prepared@[b as int].0 as nat, prepared@[b as int].1@.map_values(|v: Vec<char>| v@)),
        ),
{
    if prepared[a].0 != prepared[b].0 {
        prepared[a].0 > prepared[b].0
    } else {
        parts_less(&prepared[a].1, &prepared[b].1)
    }
}

} // verus!
