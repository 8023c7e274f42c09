use vstd::prelude::*;

use crate::text::{
    lemma_text_lt_asymmetric, lemma_text_lt_irreflexive, lemma_text_lt_total,
    lemma_text_lt_transitive, text_less, text_lt,
};

verus! {

/// Position `x` comes before position `y` when their texts are ordered by name,
/// ties kept in their order of input: the order of a stable sort by name.
pub open spec fn key_lt(names: Seq<Seq<char>>, x: int, y: int) -> bool {
    text_lt(names[x], names[y]) || (names[x] == names[y] && x < y)
}

/// Every two positions of `s` stand in the order of `key_lt`.
pub open spec fn sorted_by_key(names: Seq<Seq<char>>, s: Seq<usize>) -> bool {
    forall|a: int, b: int| 0 <= a < b < s.len() ==> key_lt(names, s[a] as int, s[b] as int)
}

/// Inserts `x`, a position larger than all in `s`, where the order by name puts it.
fn insert_by_name(s: &mut Vec<usize>, x: usize, names: &Vec<Vec<char>>)
    requires
        x < names.len(),
        forall|k: int| 0 <= k < old(s).len() ==> old(s)[k] < x,
        sorted_by_key(names@.map_values(|n: Vec<char>| n@), old(s)@),
    ensures
        sorted_by_key(names@.map_values(|n: Vec<char>| n@), final(s)@),
        final(s).len() == old(s).len() + 1,
        forall|y: usize| final(s)@.contains(y) <==> (old(s)@.contains(y) || y == x),
{
    let ghost ns = names@.map_values(|n: Vec<char>| n@);
    let ghost s0 = s@;
    let mut pos: usize = 0;
    while pos < s.len() && !text_less(&names[x], &names[s[pos]])
        invariant
            s@ == s0,
            x < names.len(),
            ns == names@.map_values(|n: Vec<char>| n@),
            forall|k: int| 0 <= k < s0.len() ==> s0[k] < x,
            forall|k: int| 0 <= k < s0.len() ==> s0[k] < names.len(),
            pos <= s.len(),
            forall|j: int| 0 <= j < pos ==> !text_lt(ns[x as int], ns[s0[j] as int]),
        decreases s.len() - pos,
    {
        pos = pos + 1;
    }
    proof {
        s0.insert_ensures(pos as int, x);
        let t = s0.insert(pos as int, x);
        assert forall|a: int, b: int| 0 <= a < b < t.len() implies key_lt(
            ns,
            t[a] as int,
            t[b] as int,
        ) by {
            if b < pos {
                assert(t[a] == s0[a] && t[b] == s0[b]);
            } else if a > pos {
                assert(t[a] == s0[a - 1] && t[b] == s0[b - 1]);
            } else if a < pos && b > pos {
                assert(t[a] == s0[a] && t[b] == s0[b - 1]);
            } else if b == pos {
                assert(t[a] == s0[a] && t[b] == x);
                lemma_text_lt_total(ns[s0[a] as int], ns[x as int]);
            } else {
                // a == pos, b > pos: x goes before every later element.
                assert(t[a] == x && t[b] == s0[b - 1]);
                assert(pos < s0.len());
                let first = s0[pos as int] as int;
                let other = s0[b - 1] as int;
                assert(text_lt(ns[x as int], ns[first]));
                if b - 1 > pos {
                    assert(key_lt(ns, first, other));
                    if text_lt(ns[first], ns[other]) {
                        lemma_text_lt_transitive(ns[x as int], ns[first], ns[other]);
                    }
                }
            }
        }
        assert forall|y: usize| t.contains(y) <==> (s0.contains(y) || y == x) by {
            if t.contains(y) {
                let k = choose|k: int| 0 <= k < t.len() && t[k] == y;
                if k < pos {
                    assert(s0[k] == y);
                } else if k > pos {
                    assert(s0[k - 1] == y);
                }
            }
            if s0.contains(y) {
                let k = choose|k: int| 0 <= k < s0.len() && s0[k] == y;
                if k < pos {
                    assert(t[k] == y);
                } else {
                    assert(t[k + 1] == y);
                }
            }
            if y == x {
                assert(t[pos as int] == y);
            }
        }
    }
    s.insert(pos, x);
}

/// The positions `candidates` (strictly increasing, all below `names.len()`),
/// arranged in the order of a stable sort by name.
pub fn order_by_name(names: &Vec<Vec<char>>, candidates: &Vec<usize>) -> (out: Vec<usize>)
    requires
        forall|k: int| 0 <= k < candidates.len() ==> candidates[k] < names.len(),
        forall|a: int, b: int| 0 <= a < b < candidates.len() ==> candidates[a] < candidates[b],
    ensures
        out.len() == candidates.len(),
        forall|y: usize| out@.contains(y) <==> candidates@.contains(y),
        sorted_by_key(names@.map_values(|n: Vec<char>| n@), out@),
{
    let ghost ns = names@.map_values(|n: Vec<char>| n@);
    let mut out: Vec<usize> = Vec::new();
    let mut i: usize = 0;
    while i < candidates.len()
        invariant
            i <= candidates.len(),
            ns == names@.map_values(|n: Vec<char>| n@),
            forall|k: int| 0 <= k < candidates.len() ==> candidates[k] < names.len(),
            forall|a: int, b: int| 0 <= a < b < candidates.len() ==> candidates[a] < candidates[b],
            out.len() == i,
            forall|y: usize| out@.contains(y) <==> candidates@.take(i as int).contains(y),
            sorted_by_key(ns, out@),
        decreases candidates.len() - i,
    {
        let x = candidates[i];
        proof {
            assert forall|k: int| 0 <= k < out.len() implies out[k] < x by {
                assert(out@.contains(out@[k]));
                let j = choose|j: int|
                    0 <= j < i && #[trigger] candidates@.take(i as int)[j] == out@[k];
                assert(candidates[j] == out@[k]);
            }
        }
        insert_by_name(&mut out, x, names);
        proof {
            assert forall|y: usize| out@.contains(y) <==> candidates@.take(i + 1).contains(
                y,
            ) by {
                if candidates@.take(i + 1).contains(y) {
                    let j = choose|j: int| 0 <= j < i + 1 && #[trigger] candidates@.take(i + 1)[j] == y;
                    if j < i {
                        assert(candidates@.take(i as int)[j] == y);
                    }
                }
                if candidates@.take(i as int).contains(y) {
                    let j = choose|j: int| 0 <= j < i && #[trigger] candidates@.take(i as int)[j] == y;
                    assert(candidates@.take(i + 1)[j] == y);
                }
                if y == x {
                    assert(candidates@.take(i + 1)[i as int] == y);
                }
            }
        }
        i = i + 1;
    }
    assert(candidates@.take(i as int) =~= candidates@);
    out
}

/// A stable order by name puts any two positions in one way only.
pub proof fn lemma_key_lt_strict(names: Seq<Seq<char>>, x: int, y: int)
    ensures
        !(key_lt(names, x, y) && key_lt(names, y, x)),
        x != y ==> key_lt(names, x, y) || key_lt(names, y, x),
{
    lemma_text_lt_asymmetric(names[x], names[y]);
    lemma_text_lt_total(names[x], names[y]);
    lemma_text_lt_irreflexive(names[x]);
}


/// Two lists of positions, each strictly in the order of `key_lt` and holding the
/// same positions, are the same list.
pub proof fn lemma_sorted_unique(names: Seq<Seq<char>>, p: Seq<usize>, q: Seq<usize>)
    requires
        sorted_by_key(names, p),
        sorted_by_key(names, q),
        forall|y: usize| p.contains(y) <==> q.contains(y),
    ensures
        p == q,
    decreases p.len() + q.len(),
{
    if p.len() == 0 || q.len() == 0 {
        if p.len() > 0 {
            assert(p.contains(p[0]));
        }
        if q.len() > 0 {
            assert(q.contains(q[0]));
        }
        assert(p =~= q);
    } else {
        assert(p.contains(p[0]));
        let j = choose|j: int| 0 <= j < q.len() && q[j] == p[0];
        assert(q.contains(q[0]));
        let i = choose|i: int| 0 <= i < p.len() && p[i] == q[0];
        if j > 0 {
            assert(key_lt(names, q[0] as int, q[j] as int));
            if i > 0 {
                assert(key_lt(names, p[0] as int, p[i] as int));
                lemma_key_lt_strict(names, p[0] as int, q[0] as int);
            }
        }
        assert(p[0] == q[0]);
        let p1 = p.drop_first();
        let q1 = q.drop_first();
        assert forall|y: usize| p1.contains(y) <==> q1.contains(y) by {
            if p1.contains(y) {
                let a = choose|a: int| 0 <= a < p1.len() && p1[a] == y;
                assert(p.contains(y));
                let b = choose|b: int| 0 <= b < q.len() && q[b] == y;
                assert(key_lt(names, p[0] as int, p[a + 1] as int));
                lemma_key_lt_strict(names, p[0] as int, p[0] as int);
                if b == 0 {
                    assert(false);
                }
                assert(q1[b - 1] == y);
            }
            if q1.contains(y) {
                let a = choose|a: int| 0 <= a < q1.len() && q1[a] == y;
                assert(q.contains(y));
                let b = choose|b: int| 0 <= b < p.len() && p[b] == y;
                assert(key_lt(names, q[0] as int, q[a + 1] as int));
                lemma_key_lt_strict(names, q[0] as int, q[0] as int);
                if b == 0 {
                    assert(false);
                }
                assert(p1[b - 1] == y);
            }
        }
        lemma_sorted_unique(names, p1, q1);
        assert(p =~= seq![p[0]] + p1);
        assert(q =~= seq![q[0]] + q1);
    }
}

/// Keeping some positions of a list in the order of `key_lt` keeps the order.
pub proof fn lemma_filter_sorted(names: Seq<Seq<char>>, p: Seq<usize>, keep: spec_fn(usize) -> bool)
    requires
        sorted_by_key(names, p),
    ensures
        sorted_by_key(names, p.filter(keep)),
    decreases p.len(),
{
    reveal_with_fuel(Seq::<_>::filter, 1);
    if p.len() > 0 {
        let init = p.drop_last();
        assert(sorted_by_key(names, init)) by {
            assert forall|a: int, b: int| 0 <= a < b < init.len() implies key_lt(
                names,
                init[a] as int,
                init[b] as int,
            ) by {
                assert(init[a] == p[a] && init[b] == p[b]);
            }
        }
        lemma_filter_sorted(names, init, keep);
        let fi = init.filter(keep);
        if keep(p.last()) {
            let f = fi.push(p.last());
            assert(p.filter(keep) == f);
            assert forall|a: int, b: int| 0 <= a < b < f.len() implies key_lt(
                names,
                f[a] as int,
                f[b] as int,
            ) by {
                if b < fi.len() {
                    assert(f[a] == fi[a] && f[b] == fi[b]);
                } else {
                    assert(f[a] == fi[a]);
                    assert(fi.contains(fi[a]));
                    init.lemma_filter_contains_rev(keep, fi[a]);
                    let j = choose|j: int| 0 <= j < init.len() && init[j] == fi[a];
                    assert(p[j] == init[j]);
                    assert(f[b] == p[p.len() - 1]);
                }
            }
        }
    }
}

} // verus!
