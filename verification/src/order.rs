//! Lexicographic order of strings and a stable sort by string keys.

use vstd::prelude::*;

verus! {

/// `a` comes strictly before `b` in lexicographic order of characters (the
/// order of `String`'s `Ord`, as UTF-8 keeps the order of code points).
pub open spec fn seq_lt(a: Seq<char>, b: Seq<char>) -> bool
    decreases a.len(),
{
    if a.len() == 0 {
        b.len() > 0
    } else if b.len() == 0 {
        false
    } else if a[0] < b[0] {
        true
    } else if a[0] > b[0] {
        false
    } else {
        seq_lt(a.drop_first(), b.drop_first())
    }
}

pub proof fn lemma_lt_irreflexive(a: Seq<char>)
    ensures
        !seq_lt(a, a),
    decreases a.len(),
{
    if a.len() > 0 {
        lemma_lt_irreflexive(a.drop_first());
    }
}

pub proof fn lemma_lt_total(a: Seq<char>, b: Seq<char>)
    ensures
        a == b || seq_lt(a, b) || seq_lt(b, a),
    decreases a.len(),
{
    if a.len() > 0 && b.len() > 0 && a[0] == b[0] {
        lemma_lt_total(a.drop_first(), b.drop_first());
        if a.drop_first() == b.drop_first() {
            assert(a =~= seq![a[0]] + a.drop_first());
            assert(b =~= seq![b[0]] + b.drop_first());
        }
    } else if a.len() == 0 && b.len() == 0 {
        assert(a =~= b);
    } else if a.len() > 0 && b.len() > 0 {
    }
}

pub proof fn lemma_lt_asymmetric(a: Seq<char>, b: Seq<char>)
    ensures
        !(seq_lt(a, b) && seq_lt(b, a)),
    decreases a.len(),
{
    if a.len() > 0 && b.len() > 0 && a[0] == b[0] {
        lemma_lt_asymmetric(a.drop_first(), b.drop_first());
    }
}

pub proof fn lemma_lt_transitive(a: Seq<char>, b: Seq<char>, c: Seq<char>)
    requires
        seq_lt(a, b),
        seq_lt(b, c),
    ensures
        seq_lt(a, c),
    decreases a.len(),
{
    if a.len() > 0 && b.len() > 0 && c.len() > 0 && a[0] == b[0] && b[0] == c[0] {
        lemma_lt_transitive(a.drop_first(), b.drop_first(), c.drop_first());
    }
}

proof fn lemma_lt_suffix(a: Seq<char>, b: Seq<char>, k: int)
    requires
        0 <= k <= a.len(),
        k <= b.len(),
        forall|j: int| 0 <= j < k ==> a[j] == b[j],
    ensures
        seq_lt(a, b) == seq_lt(a.skip(k), b.skip(k)),
    decreases k,
{
    if k > 0 {
        lemma_lt_suffix(a.drop_first(), b.drop_first(), k - 1);
        assert(a.drop_first().skip(k - 1) =~= a.skip(k));
        assert(b.drop_first().skip(k - 1) =~= b.skip(k));
        assert(a[0] == b[0]);
    } else {
        assert(a.skip(0) =~= a);
        assert(b.skip(0) =~= b);
    }
}

/// A string comes before every longer string that it begins: `Admin`
/// before `Administrator`, and the empty string before every other one.
pub proof fn law_prefix_comes_first(a: Seq<char>, b: Seq<char>)
    requires
        a.len() < b.len(),
        b.take(a.len() as int) == a,
    ensures
        seq_lt(a, b),
        !seq_lt(b, a),
{
    let k = a.len() as int;
    assert forall|j: int| 0 <= j < k implies a[j] == b[j] by {
        assert(b.take(k)[j] == b[j]);
    }
    lemma_lt_suffix(a, b, k);
    lemma_lt_suffix(b, a, k);
    assert(a.skip(k).len() == 0);
    assert(b.skip(k).len() > 0);
}

/// Two strings are ordered by their first differing character.
pub proof fn law_first_difference_decides(a: Seq<char>, b: Seq<char>, k: int)
    requires
        0 <= k < a.len(),
        k < b.len(),
        forall|j: int| 0 <= j < k ==> a[j] == b[j],
        a[k] < b[k],
    ensures
        seq_lt(a, b),
        !seq_lt(b, a),
{
    lemma_lt_suffix(a, b, k);
    lemma_lt_suffix(b, a, k);
    assert(a.skip(k)[0] == a[k]);
    assert(b.skip(k)[0] == b[k]);
}

/// Whether `a` comes strictly before `b`.
pub fn chars_lt(a: &Vec<char>, b: &Vec<char>) -> (r: bool)
    ensures
        r == seq_lt(a@, b@),
{
    let mut k: usize = 0;
    while k < a.len() && k < b.len() && a[k] == b[k]
        invariant
            k <= a@.len(),
            k <= b@.len(),
            forall|j: int| 0 <= j < k ==> a@[j] == b@[j],
        decreases a.len() - k,
    {
        k = k + 1;
    }
    proof {
        lemma_lt_suffix(a@, b@, k as int);
    }
    if k == a.len() {
        k < b.len()
    } else if k == b.len() {
        false
    } else {
        a[k] < b[k]
    }
}

/// Entry `x` of `keys` comes before entry `y` in the stable order: a smaller
/// key, or the same key and an earlier position.
pub open spec fn before(keys: Seq<Seq<char>>, x: int, y: int) -> bool {
    seq_lt(keys[x], keys[y]) || (keys[x] == keys[y] && x < y)
}

/// `p` lists the positions `0..n` of `keys`, each once, in the stable order
/// by key: what a stable sort by key does to the entries.
pub open spec fn is_stable_order(keys: Seq<Seq<char>>, p: Seq<usize>) -> bool {
    &&& p.len() == keys.len()
    &&& forall|k: int| 0 <= k < p.len() ==> p[k] < keys.len()
    &&& forall|x: usize| (x as int) < keys.len() ==> #[trigger] p.contains(x)
    &&& forall|a: int, b: int| 0 <= a < b < p.len() ==> before(keys, #[trigger] p[a] as int, #[trigger] p[b] as int)
}

/// The positions of `keys` in stable order by key: a stable sort.
pub fn stable_order(keys: &Vec<Vec<char>>) -> (p: Vec<usize>)
    ensures
        is_stable_order(keys@.map_values(|k: Vec<char>| k@), p@),
{
    let ghost ks = keys@.map_values(|k: Vec<char>| k@);
    let mut p: Vec<usize> = Vec::new();
    let mut i: usize = 0;
    while i < keys.len()
        invariant
            i <= keys@.len(),
            ks == keys@.map_values(|k: Vec<char>| k@),
            p@.len() == i,
            forall|k: int| 0 <= k < p@.len() ==> p@[k] < i,
            forall|x: usize| x < i ==> #[trigger] p@.contains(x),
            forall|a: int, b: int|
                0 <= a < b < p@.len() ==> before(ks, #[trigger] p@[a] as int, #[trigger] p@[b] as int),
        decreases keys.len() - i,
    {
        // find the first position whose key is strictly greater than key i
        let mut pos: usize = 0;
        while pos < p.len() && !chars_lt(&keys[i], &keys[p[pos]])
            invariant
                i < keys@.len(),
                ks == keys@.map_values(|k: Vec<char>| k@),
                pos <= p@.len(),
                p@.len() == i,
                forall|k: int| 0 <= k < p@.len() ==> p@[k] < i,
                forall|k: int| 0 <= k < pos ==> !seq_lt(ks[i as int], #[trigger] ks[p@[k] as int]),
            decreases p.len() - pos,
        {
            pos = pos + 1;
        }
        let ghost old_p = p@;
        p.insert(pos, i);
        proof {
            assert(p@ =~= old_p.take(pos as int).push(i).add(old_p.skip(pos as int)));
            assert forall|k: int| 0 <= k < p@.len() implies p@[k] < i + 1 by {
                if k < pos {
                    assert(p@[k] == old_p[k]);
                } else if k > pos {
                    assert(p@[k] == old_p[k - 1]);
                }
            }
            assert forall|x: usize| x < i + 1 implies #[trigger] p@.contains(x) by {
                if x == i {
                    assert(p@[pos as int] == i);
                } else {
                    let w = choose|w: int| 0 <= w < old_p.len() && old_p[w] == x;
                    assert(old_p.contains(x));
                    if w < pos {
                        assert(p@[w] == old_p[w]);
                    } else {
                        assert(p@[w + 1] == old_p[w]);
                    }
                }
            }
            assert forall|a: int, b: int| 0 <= a < b < p@.len() implies before(
                ks,
                #[trigger] p@[a] as int,
                #[trigger] p@[b] as int,
            ) by {
                let ki = ks[i as int];
                if a < pos && b < pos {
                    assert(p@[a] == old_p[a] && p@[b] == old_p[b]);
                } else if a > pos && b > pos {
                    assert(p@[a] == old_p[a - 1] && p@[b] == old_p[b - 1]);
                } else if a < pos && b > pos {
                    assert(p@[a] == old_p[a] && p@[b] == old_p[b - 1]);
                } else if a == pos {
                    // i before every later entry: its key is smaller than theirs
                    assert(p@[b] == old_p[b - 1]);
                    let kb = ks[old_p[b - 1] as int];
                    let kf = ks[old_p[pos as int] as int];
                    assert(seq_lt(ki, kf));
                    if b - 1 > pos {
                        assert(before(ks, old_p[pos as int] as int, old_p[b - 1] as int));
                        if seq_lt(kf, kb) {
                            lemma_lt_transitive(ki, kf, kb);
                        }
                    }
                } else {
                    // b == pos: every earlier entry has a key at most i's, and a smaller position
                    assert(p@[a] == old_p[a]);
                    let ka = ks[old_p[a] as int];
                    assert(!seq_lt(ki, ka));
                    lemma_lt_total(ka, ki);
                }
            }
        }
        i = i + 1;
    }
    p
}

} // verus!
