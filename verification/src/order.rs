use vstd::prelude::*;

use crate::text::chars_of;

verus! {

/// Lexicographic order of texts by code point, as `str`'s `<` orders them.
pub open spec fn text_lt(a: Seq<char>, b: Seq<char>) -> bool
    decreases a.len(),
{
    if a.len() == 0 {
        b.len() > 0
    } else if b.len() == 0 {
        false
    } else if a[0] != b[0] {
        a[0] < b[0]
    } else {
        text_lt(a.drop_first(), b.drop_first())
    }
}

pub proof fn lemma_text_lt_irreflexive(a: Seq<char>)
    ensures
        !text_lt(a, a),
    decreases a.len(),
{
    if a.len() > 0 {
        lemma_text_lt_irreflexive(a.drop_first());
    }
}

pub proof fn lemma_text_lt_transitive(a: Seq<char>, b: Seq<char>, c: Seq<char>)
    requires
        text_lt(a, b),
        text_lt(b, c),
    ensures
        text_lt(a, c),
    decreases a.len(),
{
    if a.len() > 0 && b.len() > 0 && c.len() > 0 && a[0] == b[0] && b[0] == c[0] {
        lemma_text_lt_transitive(a.drop_first(), b.drop_first(), c.drop_first());
    }
}

pub proof fn lemma_text_lt_total(a: Seq<char>, b: Seq<char>)
    requires
        a != b,
    ensures
        text_lt(a, b) || text_lt(b, a),
    decreases a.len(),
{
    if a.len() == 0 && b.len() == 0 {
        assert(a =~= b);
    } else if a.len() > 0 && b.len() > 0 && a[0] == b[0] {
        if a.drop_first() == b.drop_first() {
            assert(a =~= seq![a[0]] + a.drop_first());
            assert(b =~= seq![b[0]] + b.drop_first());
        }
        lemma_text_lt_total(a.drop_first(), b.drop_first());
    } else if a.len() > 0 && b.len() > 0 {
    }
}

/// `a < b` for strings.
pub fn str_lt(a: &str, b: &str) -> (r: bool)
    ensures
        r == text_lt(a@, b@),
{
    let x = chars_of(a);
    let y = chars_of(b);
    let mut i: usize = 0;
    assert(x@.skip(0) =~= x@);
    assert(y@.skip(0) =~= y@);
    while i < x.len() && i < y.len() && x[i] == y[i]
        invariant
            i <= x.len(),
            i <= y.len(),
            text_lt(x@, y@) == text_lt(x@.skip(i as int), y@.skip(i as int)),
        decreases x.len() - i,
    {
        assert(x@.skip(i as int).drop_first() =~= x@.skip(i + 1));
        assert(y@.skip(i as int).drop_first() =~= y@.skip(i + 1));
        i = i + 1;
    }
    if i == x.len() {
        i < y.len()
    } else if i == y.len() {
        false
    } else {
        x[i] < y[i]
    }
}

/// Strictly increasing: sorted, and so without repeats.
pub open spec fn strictly_sorted(s: Seq<Seq<char>>) -> bool {
    forall|i: int, j: int| 0 <= i < j < s.len() ==> text_lt(#[trigger] s[i], #[trigger] s[j])
}

} // verus!

verus! {

/// Lexicographic order of lists of texts (tuples of strings compare so).
pub open spec fn keys_lt(a: Seq<Seq<char>>, b: Seq<Seq<char>>) -> bool
    decreases a.len(),
{
    if a.len() == 0 {
        b.len() > 0
    } else if b.len() == 0 {
        false
    } else if a[0] != b[0] {
        text_lt(a[0], b[0])
    } else {
        keys_lt(a.drop_first(), b.drop_first())
    }
}

pub proof fn lemma_keys_lt_irreflexive(a: Seq<Seq<char>>)
    ensures
        !keys_lt(a, a),
    decreases a.len(),
{
    if a.len() > 0 {
        lemma_keys_lt_irreflexive(a.drop_first());
    }
}

pub proof fn lemma_keys_lt_transitive(a: Seq<Seq<char>>, b: Seq<Seq<char>>, c: Seq<Seq<char>>)
    requires
        keys_lt(a, b),
        keys_lt(b, c),
    ensures
        keys_lt(a, c),
    decreases a.len(),
{
    if a.len() > 0 && b.len() > 0 && c.len() > 0 {
        if a[0] == b[0] && b[0] == c[0] {
            lemma_keys_lt_transitive(a.drop_first(), b.drop_first(), c.drop_first());
        } else if a[0] != b[0] && b[0] != c[0] {
            lemma_text_lt_transitive(a[0], b[0], c[0]);
            if a[0] == c[0] {
                lemma_text_lt_irreflexive(a[0]);
            }
        } else if a[0] != b[0] {
            if a[0] == c[0] {
                lemma_text_lt_irreflexive(a[0]);
            }
        } else {
            if a[0] == c[0] {
                lemma_text_lt_irreflexive(a[0]);
            }
        }
    }
}

pub proof fn lemma_keys_lt_total(a: Seq<Seq<char>>, b: Seq<Seq<char>>)
    requires
        a != b,
    ensures
        keys_lt(a, b) || keys_lt(b, a),
    decreases a.len(),
{
    if a.len() == 0 && b.len() == 0 {
        assert(a =~= b);
    } else if a.len() > 0 && b.len() > 0 && a[0] == b[0] {
        if a.drop_first() == b.drop_first() {
            assert(a =~= seq![a[0]] + a.drop_first());
            assert(b =~= seq![b[0]] + b.drop_first());
        }
        lemma_keys_lt_total(a.drop_first(), b.drop_first());
    } else if a.len() > 0 && b.len() > 0 {
        lemma_text_lt_total(a[0], b[0]);
    }
}

/// Positions ordered by key, equal keys by position: a stable sort.
pub open spec fn before_in_key_order(ks: Seq<Seq<Seq<char>>>, i: int, j: int) -> bool {
    keys_lt(ks[i], ks[j]) || (ks[i] == ks[j] && i < j)
}

/// `p` lists every position of `ks` once, in stable key order.
pub open spec fn is_stable_key_order(ks: Seq<Seq<Seq<char>>>, p: Seq<int>) -> bool {
    &&& p.len() == ks.len()
    &&& forall|k: int| 0 <= k < p.len() ==> 0 <= #[trigger] p[k] < ks.len()
    &&& forall|a: int, b: int| 0 <= a < b < p.len() ==> before_in_key_order(ks, #[trigger] p[a], #[trigger] p[b])
}

pub open spec fn key_views(v: Seq<Vec<String>>) -> Seq<Seq<Seq<char>>> {
    v.map_values(|k: Vec<String>| k@.map_values(|s: String| s@))
}

pub open spec fn index_ints(p: Seq<usize>) -> Seq<int> {
    p.map_values(|x: usize| x as int)
}

/// `a < b` for lists of strings.
pub fn keys_less(a: &Vec<String>, b: &Vec<String>) -> (r: bool)
    ensures
        r == keys_lt(a@.map_values(|s: String| s@), b@.map_values(|s: String| s@)),
{
    let ghost av = a@.map_values(|s: String| s@);
    let ghost bv = b@.map_values(|s: String| s@);
    let mut i: usize = 0;
    assert(av.skip(0) =~= av);
    assert(bv.skip(0) =~= bv);
    while i < a.len() && i < b.len() && crate::text::str_eq(a[i].as_str(), b[i].as_str())
        invariant
            i <= a.len(),
            i <= b.len(),
            av == a@.map_values(|s: String| s@),
            bv == b@.map_values(|s: String| s@),
            keys_lt(av, bv) == keys_lt(av.skip(i as int), bv.skip(i as int)),
        decreases a.len() - i,
    {
        assert(av.skip(i as int).drop_first() =~= av.skip(i + 1));
        assert(bv.skip(i as int).drop_first() =~= bv.skip(i + 1));
        i = i + 1;
    }
    if i == a.len() {
        i < b.len()
    } else if i == b.len() {
        false
    } else {
        assert(av.skip(i as int)[0] == av[i as int]);
        assert(bv.skip(i as int)[0] == bv[i as int]);
        str_lt(a[i].as_str(), b[i].as_str())
    }
}

/// The order in which items with these keys are listed: by key, equal keys
/// as given (`sort_by` on the keys).
pub fn stable_key_order(keys: &Vec<Vec<String>>) -> (p: Vec<usize>)
    ensures
        is_stable_key_order(key_views(keys@), index_ints(p@)),
{
    let ghost ks = key_views(keys@);
    let mut p: Vec<usize> = Vec::new();
    let mut i: usize = 0;
    while i < keys.len()
        invariant
            i <= keys.len(),
            ks == key_views(keys@),
            p.len() == i,
            forall|q: int| 0 <= q < p.len() ==> #[trigger] p@[q] < i,
            forall|a: int, b: int| 0 <= a < b < p.len() ==> before_in_key_order(ks, #[trigger] p@[a] as int, #[trigger] p@[b] as int),
        decreases keys.len() - i,
    {
        let mut q: usize = 0;
        while q < p.len() && !keys_less(&keys[i], &keys[p[q]])
            invariant
                q <= p.len(),
                i < keys.len(),
                ks == key_views(keys@),
                forall|c: int| 0 <= c < p.len() ==> #[trigger] p@[c] < i,
                forall|c: int| 0 <= c < q ==> before_in_key_order(ks, #[trigger] p@[c] as int, i as int),
            decreases p.len() - q,
        {
            let ghost pq = p@[q as int] as int;
            proof {
                assert(ks[i as int] == keys@[i as int]@.map_values(|s: String| s@));
                assert(ks[pq] == keys@[pq]@.map_values(|s: String| s@));
                if ks[pq] != ks[i as int] {
                    lemma_keys_lt_total(ks[pq], ks[i as int]);
                }
            }
            q = q + 1;
        }
        proof {
            if q < p.len() {
                let pq = p@[q as int] as int;
                assert(ks[i as int] == keys@[i as int]@.map_values(|s: String| s@));
                assert(ks[pq] == keys@[pq]@.map_values(|s: String| s@));
                assert(keys_lt(ks[i as int], ks[pq]));
                assert forall|c: int| q <= c < p.len() implies before_in_key_order(ks, i as int, #[trigger] p@[c] as int) by {
                    if c > q {
                        let pc = p@[c] as int;
                        assert(before_in_key_order(ks, pq, pc));
                        if keys_lt(ks[pq], ks[pc]) {
                            lemma_keys_lt_transitive(ks[i as int], ks[pq], ks[pc]);
                        }
                    }
                }
            }
        }
        let ghost old_p = p@;
        p.insert(q, i);
        assert forall|a: int, b: int| 0 <= a < b < p.len() implies before_in_key_order(ks, #[trigger] p@[a] as int, #[trigger] p@[b] as int) by {
            if b < q {
                assert(p@[a] == old_p[a] && p@[b] == old_p[b]);
            } else if b == q {
                assert(p@[a] == old_p[a]);
            } else if a == q {
                assert(p@[b] == old_p[b - 1]);
            } else if a < q {
                assert(p@[a] == old_p[a] && p@[b] == old_p[b - 1]);
                let x = old_p[a] as int;
                let y = old_p[b - 1] as int;
                assert(before_in_key_order(ks, x, i as int));
                assert(before_in_key_order(ks, i as int, y));
                if keys_lt(ks[x], ks[i as int]) && keys_lt(ks[i as int], ks[y]) {
                    lemma_keys_lt_transitive(ks[x], ks[i as int], ks[y]);
                }
            } else {
                assert(p@[a] == old_p[a - 1] && p@[b] == old_p[b - 1]);
            }
        }
        i = i + 1;
    }
    assert forall|a: int, b: int| 0 <= a < b < p.len() implies before_in_key_order(ks, #[trigger] index_ints(p@)[a], #[trigger] index_ints(p@)[b]) by {
        assert(before_in_key_order(ks, p@[a] as int, p@[b] as int));
    }
    p
}

} // verus!

verus! {

/// A stable order lists every position exactly once: sorting keeps every
/// item and adds none.
pub proof fn law_stable_order_is_permutation(ks: Seq<Seq<Seq<char>>>, p: Seq<int>)
    requires
        is_stable_key_order(ks, p),
    ensures
        p.no_duplicates(),
        forall|i: int| 0 <= i < ks.len() ==> p.contains(i),
{
    assert forall|a: int, b: int| 0 <= a < p.len() && 0 <= b < p.len() && a != b implies p[a] != p[b] by {
        let x = if a < b { a } else { b };
        let y = if a < b { b } else { a };
        assert(before_in_key_order(ks, p[x], p[y]));
        if p[x] == p[y] {
            lemma_keys_lt_irreflexive(ks[p[x]]);
        }
    }
    p.unique_seq_to_set();
    vstd::set_lib::lemma_int_range(0, ks.len() as int);
    let range = vstd::set_lib::set_int_range(0, ks.len() as int);
    assert(p.to_set().subset_of(range));
    vstd::seq_lib::seq_to_set_is_finite(p);
    vstd::set_lib::lemma_subset_equality(p.to_set(), range);
    assert forall|i: int| 0 <= i < ks.len() implies p.contains(i) by {
        assert(range.contains(i));
        assert(p.to_set().contains(i));
    }
}

} // verus!
