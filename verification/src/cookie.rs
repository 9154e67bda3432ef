//! The session cookie: reading one cookie out of a `Cookie` header, and the
//! `Set-Cookie` values that open and close a session.

use vstd::prelude::*;

use crate::text::{chars_eq, chars_of, decimal, i64_to_string, string_from_chars, trim, trim_chars, unicode_whitespace};

verus! {

/// The name of the session cookie.
pub open spec fn session_cookie_name() -> Seq<char> {
    "tagvox_session"@
}

/// How long a session lasts: two weeks, in seconds.
pub const SESSION_TTL_SECS: i64 = 1209600;

// ---------------------------------------------------------------------------
// Reading a cookie
// ---------------------------------------------------------------------------

/// `s` split at every `sep`, as `str::split` gives it (always at least one part).
pub open spec fn split_on(s: Seq<char>, sep: char) -> Seq<Seq<char>>
    decreases s.len(),
{
    if s.len() == 0 {
        seq![Seq::<char>::empty()]
    } else {
        let rest = split_on(s.drop_last(), sep);
        if s.last() == sep {
            rest.push(Seq::<char>::empty())
        } else {
            rest.update(rest.len() - 1, rest.last().push(s.last()))
        }
    }
}

/// The index of the first `c` in `s`.
pub open spec fn index_of(s: Seq<char>, c: char) -> Option<int>
    decreases s.len(),
{
    if s.len() == 0 {
        None
    } else if s[0] == c {
        Some(0)
    } else {
        match index_of(s.drop_first(), c) {
            Some(k) => Some(k + 1),
            None => None,
        }
    }
}

/// A cookie `name=value` pair: the trimmed part split at its first `=`.
pub open spec fn cookie_pair(part: Seq<char>) -> Option<(Seq<char>, Seq<char>)> {
    let t = trim(part);
    match index_of(t, '=') {
        Some(p) => Some((t.take(p), t.skip(p + 1))),
        None => None,
    }
}

/// The value of the first pair named `name` among the parts.
pub open spec fn cookie_lookup(parts: Seq<Seq<char>>, name: Seq<char>) -> Option<Seq<char>>
    decreases parts.len(),
{
    if parts.len() == 0 {
        None
    } else {
        match cookie_pair(parts[0]) {
            Some(kv) => if kv.0 == name {
                Some(kv.1)
            } else {
                cookie_lookup(parts.drop_first(), name)
            },
            None => cookie_lookup(parts.drop_first(), name),
        }
    }
}

/// The value of cookie `name` in a `Cookie` header: the header is split at
/// `;`, each part trimmed and split at its first `=`, and the first part whose
/// name matches gives the value.
pub open spec fn cookie_value_spec(header: Seq<char>, name: Seq<char>) -> Option<Seq<char>> {
    cookie_lookup(split_on(header, ';'), name)
}

proof fn lemma_split_len(s: Seq<char>, sep: char)
    ensures
        split_on(s, sep).len() >= 1,
        s.contains(sep) ==> split_on(s, sep).len() >= 2,
    decreases s.len(),
{
    if s.len() > 0 {
        lemma_split_len(s.drop_last(), sep);
        if s.contains(sep) && s.last() != sep {
            let k = choose|k: int| 0 <= k < s.len() && s[k] == sep;
            assert(s.drop_last()[k] == sep);
        }
    }
}

pub open spec fn views_of(v: Seq<Vec<char>>) -> Seq<Seq<char>> {
    v.map_values(|x: Vec<char>| x@)
}

fn split_parts(s: &Vec<char>, sep: char) -> (r: Vec<Vec<char>>)
    ensures
        views_of(r@) == split_on(s@, sep),
{
    let mut done: Vec<Vec<char>> = Vec::new();
    let mut cur: Vec<char> = Vec::new();
    let mut i: usize = 0;
    proof {
        assert(s@.take(0) =~= Seq::<char>::empty());
        assert(views_of(done@).push(cur@) =~= seq![Seq::<char>::empty()]);
    }
    while i < s.len()
        invariant
            i <= s@.len(),
            split_on(s@.take(i as int), sep) == views_of(done@).push(cur@),
        decreases s.len() - i,
    {
        let c = s[i];
        let ghost before = views_of(done@).push(cur@);
        proof {
            assert(s@.take(i + 1).drop_last() =~= s@.take(i as int));
            assert(s@.take(i + 1).last() == c);
        }
        if c == sep {
            let finished = cur;
            let ghost done_before = views_of(done@);
            done.push(finished);
            cur = Vec::new();
            proof {
                assert(views_of(done@) =~= done_before.push(finished@));
                assert(views_of(done@).push(cur@) =~= before.push(Seq::<char>::empty()));
            }
        } else {
            cur.push(c);
            proof {
                assert(views_of(done@).push(cur@) =~= before.update(
                    before.len() - 1,
                    before.last().push(c),
                ));
            }
        }
        i = i + 1;
    }
    let ghost done_before = views_of(done@);
    let ghost last = cur@;
    done.push(cur);
    proof {
        assert(s@.take(s@.len() as int) =~= s@);
        assert(views_of(done@) =~= done_before.push(last));
    }
    done
}

proof fn lemma_index_of_at(s: Seq<char>, c: char, i: int)
    requires
        0 <= i <= s.len(),
        forall|j: int| 0 <= j < i ==> #[trigger] s[j] != c,
    ensures
        i < s.len() && s[i] == c ==> index_of(s, c) == Some(i),
        i == s.len() ==> index_of(s, c) is None,
    decreases i,
{
    if i > 0 {
        let t = s.drop_first();
        assert forall|j: int| 0 <= j < i - 1 implies #[trigger] t[j] != c by {
            assert(t[j] == s[j + 1]);
        }
        lemma_index_of_at(t, c, i - 1);
        assert(s[0] != c);
        if i < s.len() {
            assert(t[i - 1] == s[i]);
        }
    }
}

fn pair_of(part: &Vec<char>) -> (r: Option<(Vec<char>, Vec<char>)>)
    ensures
        match cookie_pair(part@) {
            Some(kv) => r matches Some(x) && x.0@ == kv.0 && x.1@ == kv.1,
            None => r is None,
        },
{
    let t = trim_chars(part);
    let mut p: usize = 0;
    while p < t.len() && t[p] != '='
        invariant
            p <= t@.len(),
            forall|j: int| 0 <= j < p ==> #[trigger] t@[j] != '=',
        decreases t.len() - p,
    {
        p = p + 1;
    }
    proof {
        lemma_index_of_at(t@, '=', p as int);
    }
    if p == t.len() {
        return None;
    }
    let mut k: Vec<char> = Vec::new();
    let mut v: Vec<char> = Vec::new();
    let mut i: usize = 0;
    while i < t.len()
        invariant
            p < t@.len(),
            i <= t@.len(),
            k@ == t@.take(if i < p { i as int } else { p as int }),
            v@ == (if i <= p + 1 { Seq::<char>::empty() } else { t@.subrange(p + 1, i as int) }),
        decreases t.len() - i,
    {
        if i < p {
            k.push(t[i]);
            proof {
                assert(k@ =~= t@.take(i + 1));
            }
        } else if i > p {
            v.push(t[i]);
            proof {
                assert(v@ =~= t@.subrange(p + 1, i + 1));
            }
        }
        i = i + 1;
    }
    proof {
        assert(v@ =~= t@.skip(p + 1));
    }
    Some((k, v))
}

/// The value of cookie `name` in the `Cookie` header `header`.
pub fn cookie_value(header: &str, name: &str) -> (r: Option<String>)
    ensures
        match cookie_value_spec(header@, name@) {
            Some(v) => r matches Some(x) && x@ == v,
            None => r is None,
        },
{
    let parts = split_parts(&chars_of(header), ';');
    let key = chars_of(name);
    let ghost all = views_of(parts@);
    proof {
        assert(all.skip(0) =~= all);
    }
    let mut i: usize = 0;
    while i < parts.len()
        invariant
            i <= parts@.len(),
            all == views_of(parts@),
            all == split_on(header@, ';'),
            key@ == name@,
            cookie_lookup(all, name@) == cookie_lookup(all.skip(i as int), name@),
        decreases parts.len() - i,
    {
        let ghost rest = all.skip(i as int);
        proof {
            assert(rest[0] == parts@[i as int]@);
            assert(rest.drop_first() =~= all.skip(i + 1));
        }
        match pair_of(&parts[i]) {
            Some((k, v)) => {
                if chars_eq(&k, &key) {
                    return Some(string_from_chars(&v));
                }
            },
            None => {},
        }
        i = i + 1;
    }
    None
}

/// The session id carried by a `Cookie` header, if any.
pub fn session_id_from_header(header: &str) -> (r: Option<String>)
    ensures
        match cookie_value_spec(header@, session_cookie_name()) {
            Some(v) => r matches Some(x) && x@ == v,
            None => r is None,
        },
{
    cookie_value(header, "tagvox_session")
}

// ---------------------------------------------------------------------------
// Writing the cookie
// ---------------------------------------------------------------------------

/// The `name=value` pair that a browser sends back for the session `id`.
pub open spec fn session_pair(id: Seq<char>) -> Seq<char> {
    "tagvox_session="@ + id
}

/// The `Set-Cookie` value that opens the session `id`.
pub open spec fn session_cookie_spec(id: Seq<char>) -> Seq<char> {
    session_pair(id) + "; Path=/; Max-Age="@ + decimal(SESSION_TTL_SECS as nat)
        + "; HttpOnly; SameSite=Lax"@
}

/// The `Set-Cookie` value that opens the session `id` for two weeks.
pub fn session_cookie(id: &str) -> (c: String)
    ensures
        c@ == session_cookie_spec(id@),
{
    let ttl = i64_to_string(SESSION_TTL_SECS);
    proof {
        assert(ttl@ == decimal(SESSION_TTL_SECS as nat));
    }
    String::from_str("tagvox_session=").concat(id).concat("; Path=/; Max-Age=").concat(
        ttl.as_str(),
    ).concat("; HttpOnly; SameSite=Lax")
}

/// The `Set-Cookie` value that ends the session.
pub fn clear_session_cookie() -> (c: String)
    ensures
        c@ == "tagvox_session=; Path=/; Max-Age=0"@,
{
    String::from_str("tagvox_session=; Path=/; Max-Age=0")
}

// ---------------------------------------------------------------------------
// The round trip
// ---------------------------------------------------------------------------

proof fn lemma_split_without_sep(a: Seq<char>, sep: char)
    requires
        !a.contains(sep),
    ensures
        split_on(a, sep) == seq![a],
    decreases a.len(),
{
    if a.len() == 0 {
        assert(a =~= Seq::<char>::empty());
        assert(split_on(a, sep) =~= seq![a]);
    } else {
        let b = a.drop_last();
        assert(!b.contains(sep)) by {
            if b.contains(sep) {
                let k = choose|k: int| 0 <= k < b.len() && b[k] == sep;
                assert(a[k] == sep);
            }
        }
        lemma_split_without_sep(b, sep);
        assert(a[a.len() - 1] != sep);
        assert(b.push(a.last()) =~= a);
    }
}

proof fn lemma_split_first(a: Seq<char>, r: Seq<char>, sep: char)
    requires
        !a.contains(sep),
        r.len() == 0 || r[0] == sep,
    ensures
        split_on(a + r, sep)[0] == a,
        split_on(a + r, sep).len() >= 1,
    decreases r.len(),
{
    lemma_split_len(a + r, sep);
    if r.len() == 0 {
        assert(a + r =~= a);
        lemma_split_without_sep(a, sep);
    } else {
        let s = a + r;
        let p = a + r.drop_last();
        assert(s.drop_last() =~= p);
        lemma_split_first(a, r.drop_last(), sep);
        lemma_split_len(p, sep);
        if r.len() > 1 {
            assert(p[a.len() as int] == sep);
            assert(p.contains(sep));
        } else {
            assert(s.last() == sep);
        }
    }
}

/// Reading the session cookie back gives the session id: for any id made of
/// ASCII letters and digits, the `Cookie` header that a browser sends for the
/// pair of [`session_cookie`], alone or followed by further `;`-separated
/// cookies, yields exactly that id.
pub proof fn law_session_cookie_round_trip(id: Seq<char>, rest: Seq<char>)
    requires
        id.len() > 0,
        forall|i: int| 0 <= i < id.len() ==> crate::text::is_ascii_alphanumeric(#[trigger] id[i]),
        rest.len() == 0 || rest[0] == ';',
    ensures
        cookie_value_spec(session_pair(id) + rest, session_cookie_name()) == Some(id),
{
    reveal_strlit("tagvox_session");
    reveal_strlit("tagvox_session=");
    let a = session_pair(id);
    let n = session_cookie_name();
    assert(a.len() == 15 + id.len());
    assert forall|i: int| 0 <= i < a.len() implies #[trigger] a[i] != ';' by {
        if i >= 15 {
            assert(a[i] == id[i - 15]);
        }
    }
    lemma_split_first(a, rest, ';');
    assert(a[0] == 't');
    assert(a[a.len() - 1] == id[id.len() - 1]);
    assert(trim(a) == a);
    assert forall|j: int| 0 <= j < 14 implies #[trigger] a[j] != '=' by {}
    lemma_index_of_at(a, '=', 14);
    assert(a.take(14) =~= n);
    assert(a.skip(15) =~= id);
    let parts = split_on(a + rest, ';');
    assert(cookie_pair(parts[0]) == Some((n, id)));
}

/// [`session_cookie`] sets exactly the pair that the law above reads back,
/// followed by its attributes.
pub proof fn law_session_cookie_sets_pair(id: Seq<char>)
    ensures
        session_cookie_spec(id) == session_pair(id) + ("; Path=/; Max-Age="@ + decimal(
            SESSION_TTL_SECS as nat,
        ) + "; HttpOnly; SameSite=Lax"@),
{
    assert(session_cookie_spec(id) =~= session_pair(id) + ("; Path=/; Max-Age="@ + decimal(
        SESSION_TTL_SECS as nat,
    ) + "; HttpOnly; SameSite=Lax"@));
}

} // verus!
