//! Matching a user's message against trigger phrases: normalization of the
//! texts, the containment bonus, and picking the best-scoring entry.

use vstd::prelude::*;

use crate::text::{
    chars_of, is_alphanumeric, is_whitespace, lowercase, string_from_chars, to_lowercase,
    unicode_alphanumeric, unicode_whitespace,
};

verus! {

// ---------------------------------------------------------------------------
// Normalization
// ---------------------------------------------------------------------------

/// Letters, digits and whitespace stay; every other character becomes a space.
pub open spec fn clean_char(c: char) -> char {
    if unicode_alphanumeric(c) || unicode_whitespace(c) {
        c
    } else {
        ' '
    }
}

/// The words of `s` as `str::split_whitespace` gives them: the maximal runs
/// of non-whitespace characters, in order.
pub open spec fn words(s: Seq<char>) -> Seq<Seq<char>>
    decreases s.len(),
{
    if s.len() == 0 {
        Seq::empty()
    } else {
        let w = words(s.drop_last());
        if unicode_whitespace(s.last()) {
            w
        } else if s.len() >= 2 && !unicode_whitespace(s[s.len() - 2]) {
            w.update(w.len() - 1, w.last().push(s.last()))
        } else {
            w.push(seq![s.last()])
        }
    }
}

/// The words joined with single spaces.
pub open spec fn join_spaces(ws: Seq<Seq<char>>) -> Seq<char>
    decreases ws.len(),
{
    if ws.len() == 0 {
        Seq::empty()
    } else if ws.len() == 1 {
        ws[0]
    } else {
        join_spaces(ws.drop_last()) + seq![' '] + ws.last()
    }
}

/// A message or trigger reduced for comparison: lowercased, punctuation
/// turned into spaces, whitespace collapsed to single spaces and trimmed.
pub open spec fn normalize_spec(s: Seq<char>) -> Seq<char> {
    join_spaces(words(lowercase(s).map_values(|c: char| clean_char(c))))
}

proof fn lemma_words_nonempty_after_word_char(s: Seq<char>)
    requires
        s.len() > 0,
        !unicode_whitespace(s.last()),
    ensures
        words(s).len() > 0,
    decreases s.len(),
{
    if s.len() >= 2 && !unicode_whitespace(s[s.len() - 2]) {
        let p = s.drop_last();
        assert(p.last() == s[s.len() - 2]);
        lemma_words_nonempty_after_word_char(p);
    }
}

proof fn lemma_join_extend_last(ws: Seq<Seq<char>>, c: char)
    requires
        ws.len() > 0,
    ensures
        join_spaces(ws.update(ws.len() - 1, ws.last().push(c))) == join_spaces(ws).push(c),
{
    let u = ws.update(ws.len() - 1, ws.last().push(c));
    if ws.len() == 1 {
        assert(u[0] == ws[0].push(c));
    } else {
        assert(u.drop_last() =~= ws.drop_last());
        assert(u.last() == ws.last().push(c));
        assert(join_spaces(u) =~= join_spaces(ws).push(c));
    }
}

proof fn lemma_join_push_word(ws: Seq<Seq<char>>, c: char)
    ensures
        join_spaces(ws.push(seq![c])) == (if ws.len() == 0 {
            seq![c]
        } else {
            join_spaces(ws) + seq![' ', c]
        }),
{
    let u = ws.push(seq![c]);
    assert(u.drop_last() =~= ws);
    if ws.len() > 0 {
        assert(join_spaces(u) =~= join_spaces(ws) + seq![' ', c]);
    }
}

/// Words separated by single spaces: no whitespace but the space, no space
/// at either end, never two spaces in a row.
pub open spec fn single_spaced(s: Seq<char>) -> bool {
    &&& forall|i: int| 0 <= i < s.len() ==> #[trigger] s[i] == ' ' || !unicode_whitespace(s[i])
    &&& s.len() > 0 ==> s[0] != ' ' && s[s.len() - 1] != ' '
    &&& forall|i: int| 0 <= i < s.len() - 1 && #[trigger] s[i] == ' ' ==> s[i + 1] != ' '
}

/// A word: at least one character, none of them whitespace.
pub open spec fn is_word(w: Seq<char>) -> bool {
    w.len() > 0 && forall|k: int| 0 <= k < w.len() ==> !unicode_whitespace(#[trigger] w[k])
}

proof fn lemma_words_are_words(s: Seq<char>)
    ensures
        forall|i: int| 0 <= i < words(s).len() ==> is_word(#[trigger] words(s)[i]),
    decreases s.len(),
{
    if s.len() > 0 {
        let p = s.drop_last();
        lemma_words_are_words(p);
        let w = words(p);
        let c = s.last();
        if !unicode_whitespace(c) {
            if s.len() >= 2 && !unicode_whitespace(s[s.len() - 2]) {
                assert(p.last() == s[s.len() - 2]);
                lemma_words_nonempty_after_word_char(p);
                let u = w.update(w.len() - 1, w.last().push(c));
                assert(is_word(w[w.len() - 1]));
                assert forall|i: int| 0 <= i < u.len() implies is_word(#[trigger] u[i]) by {
                    if i == w.len() - 1 {
                        let x = w.last().push(c);
                        assert forall|k: int| 0 <= k < x.len() implies !unicode_whitespace(#[trigger] x[k]) by {
                            if k < x.len() - 1 {
                                assert(x[k] == w.last()[k]);
                            }
                        }
                    } else {
                        assert(u[i] == w[i]);
                    }
                }
            } else {
                let u = w.push(seq![c]);
                assert forall|i: int| 0 <= i < u.len() implies is_word(#[trigger] u[i]) by {
                    if i < w.len() {
                        assert(u[i] == w[i]);
                    }
                }
            }
        }
    }
}

proof fn lemma_word_chars_alphanumeric(s: Seq<char>)
    requires
        forall|j: int| 0 <= j < s.len() ==> unicode_whitespace(#[trigger] s[j]) || unicode_alphanumeric(s[j]),
    ensures
        forall|i: int, k: int|
            0 <= i < words(s).len() && 0 <= k < words(s)[i].len() ==> unicode_alphanumeric(
                #[trigger] words(s)[i][k],
            ),
    decreases s.len(),
{
    if s.len() > 0 {
        let p = s.drop_last();
        assert forall|j: int| 0 <= j < p.len() implies unicode_whitespace(#[trigger] p[j])
            || unicode_alphanumeric(p[j]) by {
            assert(p[j] == s[j]);
        }
        lemma_word_chars_alphanumeric(p);
        let w = words(p);
        let c = s.last();
        assert(unicode_whitespace(s[s.len() - 1]) || unicode_alphanumeric(s[s.len() - 1]));
        if !unicode_whitespace(c) {
            if s.len() >= 2 && !unicode_whitespace(s[s.len() - 2]) {
                assert(p.last() == s[s.len() - 2]);
                lemma_words_nonempty_after_word_char(p);
                let u = w.update(w.len() - 1, w.last().push(c));
                assert forall|i: int, k: int| 0 <= i < u.len() && 0 <= k < u[i].len() implies unicode_alphanumeric(
                    #[trigger] u[i][k],
                ) by {
                    if i == w.len() - 1 {
                        if k < u[i].len() - 1 {
                            assert(u[i][k] == w[i][k]);
                        }
                    } else {
                        assert(u[i] == w[i]);
                    }
                }
            } else {
                let u = w.push(seq![c]);
                assert forall|i: int, k: int| 0 <= i < u.len() && 0 <= k < u[i].len() implies unicode_alphanumeric(
                    #[trigger] u[i][k],
                ) by {
                    if i < w.len() {
                        assert(u[i] == w[i]);
                    }
                }
            }
        }
    }
}

proof fn lemma_join_chars(ws: Seq<Seq<char>>)
    requires
        forall|i: int, k: int|
            0 <= i < ws.len() && 0 <= k < ws[i].len() ==> unicode_alphanumeric(#[trigger] ws[i][k]),
    ensures
        forall|m: int|
            0 <= m < join_spaces(ws).len() ==> #[trigger] join_spaces(ws)[m] == ' ' || unicode_alphanumeric(
                join_spaces(ws)[m],
            ),
    decreases ws.len(),
{
    if ws.len() == 1 {
        assert forall|m: int| 0 <= m < join_spaces(ws).len() implies #[trigger] join_spaces(ws)[m] == ' '
            || unicode_alphanumeric(join_spaces(ws)[m]) by {
            assert(join_spaces(ws)[m] == ws[0][m]);
        }
    } else if ws.len() > 1 {
        let p = ws.drop_last();
        assert forall|i: int, k: int| 0 <= i < p.len() && 0 <= k < p[i].len() implies unicode_alphanumeric(
            #[trigger] p[i][k],
        ) by {
            assert(p[i] == ws[i]);
        }
        lemma_join_chars(p);
        let a = join_spaces(p);
        let w = ws.last();
        let j = join_spaces(ws);
        assert(j =~= a + seq![' '] + w);
        assert forall|m: int| 0 <= m < j.len() implies #[trigger] j[m] == ' ' || unicode_alphanumeric(j[m]) by {
            if m < a.len() {
                assert(j[m] == a[m]);
            } else if m > a.len() {
                assert(j[m] == w[m - a.len() - 1]);
                assert(ws[ws.len() - 1][m - a.len() - 1] == w[m - a.len() - 1]);
            }
        }
    }
}

/// Normalized text holds only spaces and letters or digits.
pub proof fn law_normalized_chars(s: Seq<char>)
    ensures
        forall|m: int|
            0 <= m < normalize_spec(s).len() ==> #[trigger] normalize_spec(s)[m] == ' ' || unicode_alphanumeric(
                normalize_spec(s)[m],
            ),
{
    let t = lowercase(s).map_values(|c: char| clean_char(c));
    assert forall|j: int| 0 <= j < t.len() implies unicode_whitespace(#[trigger] t[j]) || unicode_alphanumeric(t[j]) by {
        assert(t[j] == clean_char(lowercase(s)[j]));
        assert(unicode_whitespace(' '));
    }
    lemma_word_chars_alphanumeric(t);
    lemma_join_chars(words(t));
}

proof fn lemma_join_single_spaced(ws: Seq<Seq<char>>)
    requires
        forall|i: int| 0 <= i < ws.len() ==> is_word(#[trigger] ws[i]),
    ensures
        single_spaced(join_spaces(ws)),
        ws.len() > 0 ==> join_spaces(ws).len() > 0,
    decreases ws.len(),
{
    assert(unicode_whitespace(' '));
    if ws.len() == 1 {
        assert(is_word(ws[0]));
    } else if ws.len() > 1 {
        let p = ws.drop_last();
        assert forall|i: int| 0 <= i < p.len() implies is_word(#[trigger] p[i]) by {
            assert(p[i] == ws[i]);
        }
        lemma_join_single_spaced(p);
        let a = join_spaces(p);
        let w = ws.last();
        assert(is_word(w));
        let j = join_spaces(ws);
        assert(j =~= a + seq![' '] + w);
        assert forall|i: int| 0 <= i < j.len() implies #[trigger] j[i] == ' ' || !unicode_whitespace(j[i]) by {
            if i < a.len() {
                assert(j[i] == a[i]);
            } else if i > a.len() {
                assert(j[i] == w[i - a.len() - 1]);
            }
        }
        assert(j[0] == a[0]);
        assert(j[j.len() - 1] == w[w.len() - 1]);
        assert forall|i: int| 0 <= i < j.len() - 1 && #[trigger] j[i] == ' ' implies j[i + 1] != ' ' by {
            if i < a.len() - 1 {
                assert(j[i] == a[i] && j[i + 1] == a[i + 1]);
            } else if i == a.len() - 1 {
                assert(j[i] == a[a.len() - 1]);
            } else if i == a.len() {
                assert(j[i + 1] == w[0]);
            } else {
                assert(j[i] == w[i - a.len() - 1]);
            }
        }
    }
}

/// Normalized text is words separated by single spaces, with no space at
/// either end: punctuation and runs of whitespace are gone.
pub proof fn law_normalized_is_single_spaced(s: Seq<char>)
    ensures
        single_spaced(normalize_spec(s)),
{
    let t = lowercase(s).map_values(|c: char| clean_char(c));
    lemma_words_are_words(t);
    lemma_join_single_spaced(words(t));
}

/// Normalizes a text for comparison with trigger phrases.
pub fn normalize(s: &str) -> (r: String)
    ensures
        r@ == normalize_spec(s@),
{
    let lower = to_lowercase(s);
    let lc = chars_of(lower.as_str());
    let ghost t = lowercase(s@).map_values(|c: char| clean_char(c));
    let mut out: Vec<char> = Vec::new();
    let mut in_word = false;
    let mut any_word = false;
    let mut i: usize = 0;
    while i < lc.len()
        invariant
            i <= lc@.len(),
            lc@ == lowercase(s@),
            t == lowercase(s@).map_values(|c: char| clean_char(c)),
            out@ == join_spaces(words(t.take(i as int))),
            in_word == (i > 0 && !unicode_whitespace(t[i - 1])),
            any_word == (words(t.take(i as int)).len() > 0),
        decreases lc.len() - i,
    {
        let c0 = lc[i];
        let c = if is_alphanumeric(c0) || is_whitespace(c0) { c0 } else { ' ' };
        let ghost p = t.take(i as int);
        let ghost q = t.take(i + 1);
        proof {
            assert(t[i as int] == c);
            assert(q.drop_last() =~= p);
            assert(q.last() == c);
            if i > 0 {
                assert(q[q.len() - 2] == t[i - 1]);
            }
        }
        if is_whitespace(c) {
            in_word = false;
        } else {
            if in_word {
                proof {
                    lemma_words_nonempty_after_word_char(p);
                    lemma_join_extend_last(words(p), c);
                }
                out.push(c);
            } else {
                proof {
                    lemma_join_push_word(words(p), c);
                }
                if any_word {
                    out.push(' ');
                }
                out.push(c);
                proof {
                    if any_word {
                        assert(out@ =~= join_spaces(words(p)) + seq![' ', c]);
                    } else {
                        assert(out@ =~= seq![c]);
                    }
                }
                any_word = true;
            }
            in_word = true;
        }
        i = i + 1;
    }
    proof {
        assert(t.take(i as int) =~= t);
    }
    string_from_chars(&out)
}

// ---------------------------------------------------------------------------
// Containment
// ---------------------------------------------------------------------------

/// `needle` occurs in `hay` as a contiguous part.
pub open spec fn occurs_in(needle: Seq<char>, hay: Seq<char>) -> bool {
    exists|i: int| 0 <= i <= hay.len() - needle.len() && #[trigger] hay.subrange(i, i + needle.len()) == needle
}

fn occurs_at(needle: &Vec<char>, hay: &Vec<char>, i: usize) -> (r: bool)
    requires
        i + needle@.len() <= hay@.len(),
    ensures
        r == (hay@.subrange(i as int, i + needle@.len()) == needle@),
{
    let n = hay.len();
    let mut k: usize = 0;
    while k < needle.len()
        invariant
            n == hay@.len(),
            i + needle@.len() <= hay@.len(),
            k <= needle@.len(),
            forall|j: int| 0 <= j < k ==> hay@[i + j] == needle@[j],
        decreases needle.len() - k,
    {
        proof {
            assert(i + k < hay@.len());
        }
        if hay[i + k] != needle[k] {
            proof {
                assert(hay@.subrange(i as int, i + needle@.len())[k as int] != needle@[k as int]);
            }
            return false;
        }
        k = k + 1;
    }
    proof {
        assert(hay@.subrange(i as int, i + needle@.len()) =~= needle@);
    }
    true
}

/// Whether `needle` occurs in `hay`, as `str::contains` tells.
pub fn occurs(needle: &Vec<char>, hay: &Vec<char>) -> (r: bool)
    ensures
        r == occurs_in(needle@, hay@),
{
    if needle.len() > hay.len() {
        return false;
    }
    let last = hay.len() - needle.len();
    let mut i: usize = 0;
    loop
        invariant
            last == hay@.len() - needle@.len(),
            needle@.len() <= hay@.len(),
            i <= last,
            forall|j: int| 0 <= j < i ==> #[trigger] hay@.subrange(j, j + needle@.len()) != needle@,
        decreases last - i,
    {
        if occurs_at(needle, hay, i) {
            return true;
        }
        if i == last {
            return false;
        }
        i = i + 1;
    }
}

/// What a similarity score between a message and a trigger rests on: both
/// normalized texts, which must be non-empty (otherwise the score is zero),
/// and whether one contains the other, which earns a bonus.
#[derive(Clone, Debug)]
pub struct ScoreParts {
    pub text: String,
    pub trigger: String,
    pub contains: bool,
}

/// The parts of the similarity score of a message and a trigger; `None` when
/// either normalizes to the empty text, whose score is zero.
pub fn score_parts(text: &str, trigger: &str) -> (r: Option<ScoreParts>)
    ensures
        match r {
            Some(p) => {
                &&& p.text@ == normalize_spec(text@)
                &&& p.trigger@ == normalize_spec(trigger@)
                &&& p.text@.len() > 0 && p.trigger@.len() > 0
                &&& p.contains == (occurs_in(p.trigger@, p.text@) || occurs_in(p.text@, p.trigger@))
            },
            None => normalize_spec(text@).len() == 0 || normalize_spec(trigger@).len() == 0,
        },
{
    let a = normalize(text);
    let b = normalize(trigger);
    let av = chars_of(a.as_str());
    let bv = chars_of(b.as_str());
    if av.len() == 0 || bv.len() == 0 {
        return None;
    }
    let contains = occurs(&bv, &av) || occurs(&av, &bv);
    Some(ScoreParts { text: a, trigger: b, contains })
}

// ---------------------------------------------------------------------------
// The best entry
// ---------------------------------------------------------------------------

/// Score `(e, t)` is visited before score `(f, u)`: entries in order, and
/// the triggers of an entry in order.
pub open spec fn visited_before(e: int, t: int, f: int, u: int) -> bool {
    e < f || (e == f && t < u)
}

pub open spec fn is_score(scores: Seq<Seq<u64>>, e: int, t: int) -> bool {
    0 <= e < scores.len() && 0 <= t < scores[e].len()
}

/// `(e, t)` holds the first of the highest scores.
pub open spec fn first_best(scores: Seq<Seq<u64>>, e: int, t: int) -> bool {
    &&& is_score(scores, e, t)
    &&& forall|f: int, u: int| is_score(scores, f, u) ==> #[trigger] scores[f][u] <= scores[e][t]
    &&& forall|f: int, u: int|
        is_score(scores, f, u) && visited_before(f, u, e, t) ==> #[trigger] scores[f][u] < scores[e][t]
}

/// Entry `e` holds the first of the highest scores, and that score reaches
/// the threshold.
pub open spec fn wins(scores: Seq<Seq<u64>>, e: int, threshold: int) -> bool {
    exists|t: int| first_best(scores, e, t) && #[trigger] scores[e][t] >= threshold
}

pub open spec fn views_u64(v: Seq<Vec<u64>>) -> Seq<Seq<u64>> {
    v.map_values(|x: Vec<u64>| x@)
}

/// The entry whose trigger scored highest, the first one on ties, provided
/// that score reaches the threshold. Scores are given as order keys: larger
/// keys for better scores.
pub fn best_entry(scores: &Vec<Vec<u64>>, threshold: u64) -> (r: Option<usize>)
    ensures
        r is Some ==> wins(views_u64(scores@), r.unwrap() as int, threshold as int),
        r is None ==> forall|f: int, u: int|
            is_score(views_u64(scores@), f, u) ==> #[trigger] views_u64(scores@)[f][u] < threshold,
{
    let ghost sc = views_u64(scores@);
    let mut best: Option<(usize, u64)> = None;
    let ghost mut bt: int = 0;
    let mut e: usize = 0;
    while e < scores.len()
        invariant
            e <= scores@.len(),
            sc == views_u64(scores@),
            match best {
                None => forall|f: int, u: int| is_score(sc, f, u) && f < e ==> false,
                Some((be, bs)) => {
                    &&& (be as int) < e
                    &&& is_score(sc, be as int, bt)
                    &&& sc[be as int][bt] == bs
                    &&& forall|f: int, u: int| is_score(sc, f, u) && f < e ==> #[trigger] sc[f][u] <= bs
                    &&& forall|f: int, u: int|
                        is_score(sc, f, u) && visited_before(f, u, be as int, bt) ==> #[trigger] sc[f][u]
                            < bs
                },
            },
        decreases scores.len() - e,
    {
        let row = &scores[e];
        let mut t: usize = 0;
        while t < row.len()
            invariant
                e < scores@.len(),
                sc == views_u64(scores@),
                row@ == sc[e as int],
                t <= row@.len(),
                match best {
                    None => forall|f: int, u: int|
                        is_score(sc, f, u) && visited_before(f, u, e as int, t as int) ==> false,
                    Some((be, bs)) => {
                        &&& (be as int) <= e
                        &&& is_score(sc, be as int, bt)
                        &&& sc[be as int][bt] == bs
                        &&& visited_before(be as int, bt, e as int, t as int)
                        &&& forall|f: int, u: int|
                            is_score(sc, f, u) && visited_before(f, u, e as int, t as int)
                                ==> #[trigger] sc[f][u] <= bs
                        &&& forall|f: int, u: int|
                            is_score(sc, f, u) && visited_before(f, u, be as int, bt)
                                ==> #[trigger] sc[f][u] < bs
                    },
                },
            decreases row.len() - t,
        {
            let s = row[t];
            let better = match best {
                None => true,
                Some((_, bs)) => s > bs,
            };
            if better {
                best = Some((e, s));
                proof {
                    bt = t as int;
                }
            }
            t = t + 1;
        }
        e = e + 1;
    }
    match best {
        None => None,
        Some((be, bs)) => {
            if bs >= threshold {
                proof {
                    assert(first_best(sc, be as int, bt));
                    assert(wins(sc, be as int, threshold as int));
                }
                Some(be)
            } else {
                None
            }
        },
    }
}

/// At most one entry wins: the first of the highest scores is one place.
pub proof fn law_winner_is_unique(scores: Seq<Seq<u64>>, e1: int, e2: int, threshold: int)
    requires
        wins(scores, e1, threshold),
        wins(scores, e2, threshold),
    ensures
        e1 == e2,
{
    let t1 = choose|t: int| first_best(scores, e1, t) && #[trigger] scores[e1][t] >= threshold;
    let t2 = choose|t: int| first_best(scores, e2, t) && #[trigger] scores[e2][t] >= threshold;
    assert(scores[e1][t1] <= scores[e2][t2]);
    assert(scores[e2][t2] <= scores[e1][t1]);
    if visited_before(e1, t1, e2, t2) {
        assert(scores[e1][t1] < scores[e2][t2]);
    } else if visited_before(e2, t2, e1, t1) {
        assert(scores[e2][t2] < scores[e1][t1]);
    }
}

/// Lowering the threshold never loses the winner.
pub proof fn law_lower_threshold_keeps_winner(scores: Seq<Seq<u64>>, e: int, high: int, low: int)
    requires
        wins(scores, e, high),
        low <= high,
    ensures
        wins(scores, e, low),
{
    let t = choose|t: int| first_best(scores, e, t) && #[trigger] scores[e][t] >= high;
    assert(first_best(scores, e, t) && scores[e][t] >= low);
}

} // verus!
