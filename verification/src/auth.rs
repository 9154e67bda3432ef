//! Logging into the control panel: sessions, the one-time OAuth `state`
//! values, the Discord authorization URL, password login, and the decisions
//! of the Discord OAuth callback.

use vstd::prelude::*;

use crate::clock::now_ts;
use crate::cookie::{session_cookie, session_cookie_spec, SESSION_TTL_SECS};
use crate::error::{api_error, check_matches, ApiError, ApiErrorView, ErrorStatus};
use crate::panel::{AuthMode, DiscordOauthConfig};
use crate::password::{password_matches, verify_password};
use crate::random::random_token;
use crate::seqs::{lemma_filter_member, lemma_filter_step};
use crate::text::{chars_of, is_ascii_alphanumeric, str_eq};

verus! {

broadcast use vstd::seq_lib::group_filter_ensures;

// ---------------------------------------------------------------------------
// Requests and answers
// ---------------------------------------------------------------------------

/// The user a valid session belongs to.
#[derive(Clone, Debug)]
pub struct AuthedUser {
    pub discord_user_id: String,
}

/// Which login screen the panel shows.
#[derive(Clone, Copy, Debug)]
pub struct AuthModeResponse {
    pub mode: &'static str,
}

/// The body of a password login.
pub struct PasswordLoginInput {
    pub password: String,
}

/// The query of Discord's redirect back to the panel.
pub struct CallbackQuery {
    pub code: Option<String>,
    pub state: Option<String>,
    pub error: Option<String>,
}

/// The name of a login method as the panel's front end knows it.
pub fn mode(auth_mode: AuthMode) -> (r: AuthModeResponse)
    ensures
        r.mode@ == (match auth_mode {
            AuthMode::Discord => "discord"@,
            AuthMode::Password => "password"@,
        }),
{
    let m = match auth_mode {
        AuthMode::Discord => "discord",
        AuthMode::Password => "password",
    };
    AuthModeResponse { mode: m }
}

// ---------------------------------------------------------------------------
// Sessions
// ---------------------------------------------------------------------------

/// A new session: its random id, its lifetime and the cookie that carries it.
#[derive(Clone, Debug)]
pub struct SessionTicket {
    pub id: String,
    pub created_at: i64,
    pub expires_at: i64,
    pub cookie: String,
}

/// Opens a session at time `now` (Unix seconds): a 48-character random id,
/// valid for two weeks, and the `Set-Cookie` value for it.
pub fn new_session(now: i64) -> (t: SessionTicket)
    requires
        now <= i64::MAX - SESSION_TTL_SECS,
    ensures
        t.id@.len() == 48,
        forall|i: int| 0 <= i < 48 ==> is_ascii_alphanumeric(#[trigger] t.id@[i]),
        t.created_at == now,
        t.expires_at == now + SESSION_TTL_SECS,
        t.cookie@ == session_cookie_spec(t.id@),
{
    let id = random_token(48);
    let cookie = session_cookie(id.as_str());
    SessionTicket { id, created_at: now, expires_at: now + SESSION_TTL_SECS, cookie }
}

/// Opens a session now, as `new_session` does at the clock's current time;
/// none when the clock reads before 1970 or so late that the expiry would
/// not fit.
pub fn start_session() -> (r: Option<SessionTicket>)
    ensures
        r matches Some(t) ==> {
            &&& t.id@.len() == 48
            &&& forall|i: int| 0 <= i < 48 ==> is_ascii_alphanumeric(#[trigger] t.id@[i])
            &&& t.expires_at == t.created_at + SESSION_TTL_SECS
            &&& t.cookie@ == session_cookie_spec(t.id@)
        },
{
    match now_ts() {
        Some(now) => {
            if now <= i64::MAX - SESSION_TTL_SECS {
                Some(new_session(now))
            } else {
                None
            }
        },
        None => None,
    }
}

/// A session is valid while its expiry lies after the current time.
pub open spec fn session_valid(expires_at: i64, now: i64) -> bool {
    expires_at > now
}

/// The answer to a request without a session cookie.
pub fn missing_session_error() -> (e: ApiError)
    ensures
        e@ == api_error(ErrorStatus::Unauthorized, "Не авторизован"@),
{
    ApiError::new(ErrorStatus::Unauthorized, String::from_str("Не авторизован"))
}

/// The decision on a request whose session cookie named a stored session
/// (`Some((user id, expiry))`) or none.
pub fn session_verdict(row: Option<(String, i64)>, now: i64) -> (r: Result<AuthedUser, ApiError>)
    ensures
        match row {
            Some((uid, exp)) => if session_valid(exp, now) {
                r matches Ok(u) && u.discord_user_id@ == uid@
            } else {
                r matches Err(e) && e@ == api_error(
                    ErrorStatus::Unauthorized,
                    "Сессия истекла или недействительна"@,
                )
            },
            None => r matches Err(e) && e@ == api_error(
                ErrorStatus::Unauthorized,
                "Сессия истекла или недействительна"@,
            ),
        },
{
    match row {
        Some((uid, exp)) => {
            if exp > now {
                return Ok(AuthedUser { discord_user_id: uid });
            }
        },
        None => {},
    }
    Err(
        ApiError::new(
            ErrorStatus::Unauthorized,
            String::from_str("Сессия истекла или недействительна"),
        ),
    )
}

/// The answer when a new session could not be stored.
pub fn session_store_error() -> (e: ApiError)
    ensures
        e@ == api_error(ErrorStatus::Internal, "Не удалось создать сессию"@),
{
    ApiError::internal(String::from_str("Не удалось создать сессию"))
}

/// A session opened at `created_at` is accepted at every moment before its
/// two weeks are over, and refused from then on.
pub proof fn law_session_lifetime(created_at: i64, now: i64)
    requires
        created_at <= i64::MAX - SESSION_TTL_SECS,
    ensures
        created_at <= now < created_at + SESSION_TTL_SECS ==> session_valid(
            (created_at + SESSION_TTL_SECS) as i64,
            now,
        ),
        now >= created_at + SESSION_TTL_SECS ==> !session_valid(
            (created_at + SESSION_TTL_SECS) as i64,
            now,
        ),
{
}

// ---------------------------------------------------------------------------
// One-time OAuth state values
// ---------------------------------------------------------------------------

/// How long an OAuth `state` stays usable: ten minutes, in nanoseconds.
pub const OAUTH_STATE_TTL_NANOS: u64 = 600_000_000_000;

/// The `state` values handed out for OAuth logins, each with the moment it
/// was issued (nanoseconds on a monotonic clock).
pub struct OAuthStates {
    entries: Vec<(String, u64)>,
}

pub open spec fn entries_view(v: Seq<(String, u64)>) -> Seq<(Seq<char>, u64)> {
    v.map_values(|e: (String, u64)| (e.0@, e.1))
}

impl View for OAuthStates {
    type V = Seq<(Seq<char>, u64)>;

    closed spec fn view(&self) -> Seq<(Seq<char>, u64)> {
        entries_view(self.entries@)
    }
}

/// The time elapsed from `then` to `now`, never below zero.
pub open spec fn elapsed(now: u64, then: u64) -> u64 {
    if now >= then {
        (now - then) as u64
    } else {
        0
    }
}

/// A state issued at `e.1` is still usable at `now`.
pub open spec fn fresh_at(now: u64) -> spec_fn((Seq<char>, u64)) -> bool {
    |e: (Seq<char>, u64)| elapsed(now, e.1) < OAUTH_STATE_TTL_NANOS
}

pub open spec fn other_key(k: Seq<char>) -> spec_fn((Seq<char>, u64)) -> bool {
    |e: (Seq<char>, u64)| e.0 != k
}

pub open spec fn holds_key(s: Seq<(Seq<char>, u64)>, k: Seq<char>) -> bool {
    exists|i: int| 0 <= i < s.len() && (#[trigger] s[i]).0 == k
}

/// The states still usable at `now`.
pub open spec fn pruned(s: Seq<(Seq<char>, u64)>, now: u64) -> Seq<(Seq<char>, u64)> {
    s.filter(fresh_at(now))
}

/// The states after issuing `token` at `now`: expired ones dropped, `token`
/// recorded with the current time.
pub open spec fn issued(s: Seq<(Seq<char>, u64)>, token: Seq<char>, now: u64) -> Seq<
    (Seq<char>, u64),
> {
    pruned(s, now).filter(other_key(token)).push((token, now))
}

/// Whether `token` is accepted at `now`: it must be a usable state.
pub open spec fn accepts(s: Seq<(Seq<char>, u64)>, token: Seq<char>, now: u64) -> bool {
    holds_key(pruned(s, now), token)
}

/// The states after `token` was presented at `now`: expired ones dropped and
/// `token` burnt.
pub open spec fn after_consume(s: Seq<(Seq<char>, u64)>, token: Seq<char>, now: u64) -> Seq<
    (Seq<char>, u64),
> {
    pruned(s, now).filter(other_key(token))
}

impl OAuthStates {
    pub fn new() -> (s: OAuthStates)
        ensures
            s@ == Seq::<(Seq<char>, u64)>::empty(),
    {
        let s = OAuthStates { entries: Vec::new() };
        proof {
            assert(s@ =~= Seq::<(Seq<char>, u64)>::empty());
        }
        s
    }

    /// Drops the expired states and, when `drop` is given, every entry of that
    /// key; tells whether an entry of that key was among the usable ones.
    fn prune(&mut self, now: u64, drop: Option<&str>) -> (found: bool)
        ensures
            final(self)@ == (match drop {
                Some(k) => pruned(old(self)@, now).filter(other_key(k@)),
                None => pruned(old(self)@, now),
            }),
            found == (match drop {
                Some(k) => holds_key(pruned(old(self)@, now), k@),
                None => false,
            }),
    {
        let ghost s = self@;
        let ghost p = fresh_at(now);
        let ghost fs = pruned(s, now);
        let mut kept: Vec<(String, u64)> = Vec::new();
        let mut i: usize = 0;
        while i < self.entries.len()
            invariant
                i <= self.entries@.len(),
                s == entries_view(self.entries@),
                p == fresh_at(now),
                entries_view(kept@) == s.take(i as int).filter(p),
            decreases self.entries.len() - i,
        {
            proof {
                lemma_filter_step(s, i as int, p);
            }
            let t = self.entries[i].1;
            let age: u64 = if now >= t { now - t } else { 0 };
            if age < OAUTH_STATE_TTL_NANOS {
                let k = self.entries[i].0.clone();
                let ghost before = entries_view(kept@);
                kept.push((k, t));
                proof {
                    assert(entries_view(kept@) =~= before.push(s[i as int]));
                }
            }
            i = i + 1;
        }
        proof {
            assert(s.take(i as int) =~= s);
        }
        let found = match drop {
            None => false,
            Some(key) => {
                let ghost q = other_key(key@);
                let mut rest: Vec<(String, u64)> = Vec::new();
                let mut found = false;
                let mut j: usize = 0;
                while j < kept.len()
                    invariant
                        j <= kept@.len(),
                        entries_view(kept@) == fs,
                        q == other_key(key@),
                        entries_view(rest@) == fs.take(j as int).filter(q),
                        found == holds_key(fs.take(j as int), key@),
                    decreases kept.len() - j,
                {
                    proof {
                        lemma_filter_step(fs, j as int, q);
                        assert(fs.take(j + 1) =~= fs.take(j as int).push(fs[j as int]));
                        if holds_key(fs.take(j + 1), key@) && !holds_key(fs.take(j as int), key@) {
                            let w = choose|w: int|
                                0 <= w < fs.take(j + 1).len() && (#[trigger] fs.take(
                                    j + 1,
                                )[w]).0 == key@;
                            assert(w == j);
                        }
                        if holds_key(fs.take(j as int), key@) {
                            let w = choose|w: int|
                                0 <= w < fs.take(j as int).len() && (#[trigger] fs.take(
                                    j as int,
                                )[w]).0 == key@;
                            assert(fs.take(j + 1)[w] == fs.take(j as int)[w]);
                        }
                    }
                    if str_eq(kept[j].0.as_str(), key) {
                        found = true;
                        proof {
                            assert(fs.take(j + 1)[j as int].0 == key@);
                        }
                    } else {
                        let k = kept[j].0.clone();
                        let t = kept[j].1;
                        let ghost before = entries_view(rest@);
                        rest.push((k, t));
                        proof {
                            assert(entries_view(rest@) =~= before.push(fs[j as int]));
                        }
                    }
                    j = j + 1;
                }
                proof {
                    assert(fs.take(j as int) =~= fs);
                }
                kept = rest;
                found
            },
        };
        self.entries = kept;
        found
    }

    /// Records a newly issued `token` at `now`, dropping the expired ones.
    pub fn issue(&mut self, token: String, now: u64)
        ensures
            final(self)@ == issued(old(self)@, token@, now),
    {
        self.prune(now, Some(token.as_str()));
        let ghost before = self@;
        self.entries.push((token, now));
        proof {
            assert(self@ =~= before.push((token@, now)));
        }
    }

    /// Accepts `token` once if it was issued less than ten minutes ago, and
    /// burns it; expired states are dropped on the way.
    pub fn consume(&mut self, token: &str, now: u64) -> (ok: bool)
        ensures
            ok == accepts(old(self)@, token@, now),
            final(self)@ == after_consume(old(self)@, token@, now),
    {
        self.prune(now, Some(token))
    }
}

/// A state handed out for a login is accepted exactly once: presented within
/// ten minutes it is accepted, and presented again afterwards it is refused.
pub proof fn law_oauth_state_single_use(
    s: Seq<(Seq<char>, u64)>,
    token: Seq<char>,
    t0: u64,
    t1: u64,
    t2: u64,
)
    requires
        t0 <= t1,
        t1 - t0 < OAUTH_STATE_TTL_NANOS,
    ensures
        accepts(issued(s, token, t0), token, t1),
        !accepts(after_consume(issued(s, token, t0), token, t1), token, t2),
{
    let st = issued(s, token, t0);
    let last = st.len() - 1;
    assert(st[last] == (token, t0));
    assert(fresh_at(t1)(st[last]));
    st.lemma_filter_contains(fresh_at(t1), last);
    let ps = pruned(st, t1);
    let k = choose|k: int| 0 <= k < ps.len() && ps[k] == st[last];
    assert(ps[k].0 == token);
    let after = after_consume(st, token, t1);
    if accepts(after, token, t2) {
        let pa = pruned(after, t2);
        let w = choose|w: int| 0 <= w < pa.len() && (#[trigger] pa[w]).0 == token;
        assert(pa.contains(pa[w]));
        lemma_filter_member(after, fresh_at(t2), pa[w]);
        lemma_filter_member(ps, other_key(token), pa[w]);
    }
}

/// A state presented ten minutes or more after it was issued is refused.
pub proof fn law_oauth_state_expires(s: Seq<(Seq<char>, u64)>, token: Seq<char>, t0: u64, t1: u64)
    requires
        t1 >= t0,
        t1 - t0 >= OAUTH_STATE_TTL_NANOS,
    ensures
        !accepts(issued(s, token, t0), token, t1),
{
    let st = issued(s, token, t0);
    let base = pruned(s, t0).filter(other_key(token));
    if accepts(st, token, t1) {
        let ps = pruned(st, t1);
        let w = choose|w: int| 0 <= w < ps.len() && (#[trigger] ps[w]).0 == token;
        assert(ps.contains(ps[w]));
        lemma_filter_member(st, fresh_at(t1), ps[w]);
        let k = choose|k: int| 0 <= k < st.len() && st[k] == ps[w];
        if k < st.len() - 1 {
            assert(base.contains(base[k]));
            lemma_filter_member(pruned(s, t0), other_key(token), base[k]);
        }
    }
}

/// A state that was never handed out is refused.
pub proof fn law_unknown_state_refused(s: Seq<(Seq<char>, u64)>, token: Seq<char>, now: u64)
    requires
        !holds_key(s, token),
    ensures
        !accepts(s, token, now),
{
    if accepts(s, token, now) {
        let ps = pruned(s, now);
        let w = choose|w: int| 0 <= w < ps.len() && (#[trigger] ps[w]).0 == token;
        assert(ps.contains(ps[w]));
        lemma_filter_member(s, fresh_at(now), ps[w]);
        let k = choose|k: int| 0 <= k < s.len() && s[k] == ps[w];
        assert(s[k].0 == token);
    }
}

/// Handing out a new state forgets no other live one: a state that is
/// accepted at a moment is still accepted then after another state was
/// issued earlier, so several logins can be under way at once.
pub proof fn law_issue_keeps_other_states(
    s: Seq<(Seq<char>, u64)>,
    token: Seq<char>,
    other: Seq<char>,
    t0: u64,
    now: u64,
)
    requires
        other != token,
        t0 <= now,
        accepts(s, other, now),
    ensures
        accepts(issued(s, token, t0), other, now),
{
    let ps = pruned(s, now);
    let w = choose|w: int| 0 <= w < ps.len() && (#[trigger] ps[w]).0 == other;
    let e = ps[w];
    assert(ps.contains(e));
    lemma_filter_member(s, fresh_at(now), e);
    let k = choose|k: int| 0 <= k < s.len() && s[k] == e;
    assert(fresh_at(t0)(s[k]));
    s.lemma_filter_contains(fresh_at(t0), k);
    let p0 = pruned(s, t0);
    let k0 = choose|k0: int| 0 <= k0 < p0.len() && p0[k0] == e;
    assert(other_key(token)(p0[k0]));
    p0.lemma_filter_contains(other_key(token), k0);
    let base = p0.filter(other_key(token));
    let k1 = choose|k1: int| 0 <= k1 < base.len() && base[k1] == e;
    let st = issued(s, token, t0);
    assert(st[k1] == e);
    st.lemma_filter_contains(fresh_at(now), k1);
    let pst = pruned(st, now);
    let k2 = choose|k2: int| 0 <= k2 < pst.len() && pst[k2] == e;
    assert(pst[k2].0 == other);
}

/// A state that was presented is no longer held, whether or not it was
/// accepted.
pub proof fn law_presented_state_is_gone(s: Seq<(Seq<char>, u64)>, token: Seq<char>, now: u64)
    ensures
        !holds_key(after_consume(s, token, now), token),
{
    let a = after_consume(s, token, now);
    if holds_key(a, token) {
        let w = choose|w: int| 0 <= w < a.len() && (#[trigger] a[w]).0 == token;
        assert(a.contains(a[w]));
        lemma_filter_member(pruned(s, now), other_key(token), a[w]);
    }
}

/// A state that is not held stays so while other states are issued and any
/// states are presented: with the law on unknown states, a state is refused
/// at every later callback until it is issued again.
pub proof fn law_absent_state_stays_absent(
    s: Seq<(Seq<char>, u64)>,
    token: Seq<char>,
    other: Seq<char>,
    presented: Seq<char>,
    now: u64,
)
    requires
        !holds_key(s, token),
        other != token,
    ensures
        !holds_key(issued(s, other, now), token),
        !holds_key(after_consume(s, presented, now), token),
{
    let i = issued(s, other, now);
    if holds_key(i, token) {
        let w = choose|w: int| 0 <= w < i.len() && (#[trigger] i[w]).0 == token;
        let base = pruned(s, now).filter(other_key(other));
        if w < base.len() {
            assert(i[w] == base[w]);
            assert(base.contains(base[w]));
            lemma_filter_member(pruned(s, now), other_key(other), base[w]);
            lemma_filter_member(s, fresh_at(now), base[w]);
            let k = choose|k: int| 0 <= k < s.len() && s[k] == base[w];
            assert(s[k].0 == token);
        }
    }
    let a = after_consume(s, presented, now);
    if holds_key(a, token) {
        let w = choose|w: int| 0 <= w < a.len() && (#[trigger] a[w]).0 == token;
        assert(a.contains(a[w]));
        lemma_filter_member(pruned(s, now), other_key(presented), a[w]);
        lemma_filter_member(s, fresh_at(now), a[w]);
        let k = choose|k: int| 0 <= k < s.len() && s[k] == a[w];
        assert(s[k].0 == token);
    }
}

// ---------------------------------------------------------------------------
// The Discord authorization URL
// ---------------------------------------------------------------------------

/// The bytes that `urlencoding::encode` keeps as they are.
pub open spec fn url_safe(b: u8) -> bool {
    ||| (48 <= b && b <= 57)
    ||| (65 <= b && b <= 90)
    ||| (97 <= b && b <= 122)
    ||| b == 45
    ||| b == 46
    ||| b == 95
    ||| b == 126
}

pub open spec fn hex_upper(d: u8) -> char {
    if d < 10 {
        ((d + 48) as u32) as char
    } else {
        ((d + 55) as u32) as char
    }
}

/// Percent-encoding of a byte string: every byte but ASCII letters, digits,
/// `-`, `.`, `_` and `~` becomes `%` and two uppercase hex digits.
pub open spec fn percent_encode(bytes: Seq<u8>) -> Seq<char>
    decreases bytes.len(),
{
    if bytes.len() == 0 {
        Seq::empty()
    } else {
        let b = bytes.last();
        let prev = percent_encode(bytes.drop_last());
        if url_safe(b) {
            prev.push((b as u32) as char)
        } else {
            prev + seq!['%', hex_upper(b / 16), hex_upper(b % 16)]
        }
    }
}

/// Wraps `urlencoding::encode`. Claims what its documentation states: the
/// UTF-8 bytes of `s`, percent-encoded except for alphanumerics and
/// `-`, `_`, `.`, `~`, with uppercase hex digits as its source writes them.
#[verifier::external_body]
pub(crate) fn url_encode(s: &str) -> (r: String)
    ensures
        r@ == percent_encode(vstd::utf8::encode_utf8(s@)),
{
    urlencoding::encode(s).into_owned()
}

pub open spec fn encoded(s: Seq<char>) -> Seq<char> {
    percent_encode(vstd::utf8::encode_utf8(s))
}

/// The page of Discord that asks the user to authorize the panel.
pub open spec fn authorize_url_spec(client_id: Seq<char>, redirect_uri: Seq<char>, state: Seq<
    char,
>) -> Seq<char> {
    "https://discord.com/api/oauth2/authorize?client_id="@ + encoded(client_id)
        + "&redirect_uri="@ + encoded(redirect_uri)
        + "&response_type=code&scope=identify&state="@ + encoded(state)
}

/// The Discord authorization URL for a client, redirect URI and `state`.
pub fn authorize_url(client_id: &str, redirect_uri: &str, state: &str) -> (u: String)
    ensures
        u@ == authorize_url_spec(client_id@, redirect_uri@, state@),
{
    let c = url_encode(client_id);
    let r = url_encode(redirect_uri);
    let s = url_encode(state);
    String::from_str("https://discord.com/api/oauth2/authorize?client_id=").concat(c.as_str()).concat(
        "&redirect_uri=",
    ).concat(r.as_str()).concat("&response_type=code&scope=identify&state=").concat(s.as_str())
}

pub open spec fn oauth_configured(oauth: DiscordOauthConfig) -> bool {
    oauth.client_id@.len() > 0 && oauth.redirect_uri@.len() > 0
}

/// Starts a Discord login: refuses when OAuth is not configured; otherwise
/// hands out a fresh 32-character `state`, records it at `now`, and gives
/// the URL to redirect the browser to.
pub fn begin_login(oauth: &DiscordOauthConfig, states: &mut OAuthStates, now: u64) -> (r: Result<
    String,
    ApiError,
>)
    ensures
        !oauth_configured(*oauth) ==> (r matches Err(e) && e@ == api_error(
            ErrorStatus::ServiceUnavailable,
            "Discord OAuth не настроен: заполни discord_oauth в panel.toml"@,
        ) && final(states)@ == old(states)@),
        oauth_configured(*oauth) ==> (r matches Ok(url) && exists|token: Seq<char>|
            {
                &&& token.len() == 32
                &&& forall|i: int| 0 <= i < 32 ==> is_ascii_alphanumeric(#[trigger] token[i])
                &&& url@ == authorize_url_spec(oauth.client_id@, oauth.redirect_uri@, token)
                &&& final(states)@ == issued(old(states)@, token, now)
            }),
{
    if oauth.client_id.as_str().is_empty() || oauth.redirect_uri.as_str().is_empty() {
        return Err(
            ApiError::new(
                ErrorStatus::ServiceUnavailable,
                String::from_str("Discord OAuth не настроен: заполни discord_oauth в panel.toml"),
            ),
        );
    }
    let token = random_token(32);
    let url = authorize_url(oauth.client_id.as_str(), oauth.redirect_uri.as_str(), token.as_str());
    let ghost t = token@;
    states.issue(token, now);
    Ok(url)
}

// ---------------------------------------------------------------------------
// Password login
// ---------------------------------------------------------------------------

/// The user id that password logins are recorded under.
pub fn password_login_user() -> (id: String)
    ensures
        id@ == "local-password-user"@,
{
    String::from_str("local-password-user")
}

/// The refusal that a password login draws, if any.
pub open spec fn password_login_spec(mode: AuthMode, hash: Seq<char>, password: Seq<char>) -> Option<
    ApiErrorView,
> {
    if mode != AuthMode::Password {
        Some(
            api_error(
                ErrorStatus::ServiceUnavailable,
                "Вход по паролю не включён (auth_mode в panel.toml)"@,
            ),
        )
    } else if hash.len() == 0 {
        Some(api_error(ErrorStatus::ServiceUnavailable, "Пароль ещё не задан в panel.toml"@))
    } else if !password_matches(password, hash) {
        Some(api_error(ErrorStatus::Unauthorized, "Неверный пароль"@))
    } else {
        None
    }
}

/// Checks a password login: password login must be the configured method, a
/// password must be set, and the password must match its hash.
pub fn password_login_check(mode: AuthMode, password_hash: &str, password: &str) -> (r: Result<
    (),
    ApiError,
>)
    ensures
        check_matches(r, password_login_spec(mode, password_hash@, password@)),
{
    if mode != AuthMode::Password {
        return Err(
            ApiError::new(
                ErrorStatus::ServiceUnavailable,
                String::from_str("Вход по паролю не включён (auth_mode в panel.toml)"),
            ),
        );
    }
    if password_hash.is_empty() {
        return Err(
            ApiError::new(
                ErrorStatus::ServiceUnavailable,
                String::from_str("Пароль ещё не задан в panel.toml"),
            ),
        );
    }
    if !verify_password(password, password_hash) {
        return Err(ApiError::new(ErrorStatus::Unauthorized, String::from_str("Неверный пароль")));
    }
    Ok(())
}

// ---------------------------------------------------------------------------
// The Discord OAuth callback
// ---------------------------------------------------------------------------

/// How the exchange of the authorization code for a token ended.
pub enum TokenOutcome {
    /// Discord gave an access token.
    Token(String),
    /// Discord answered with an error status.
    Rejected,
    /// Discord could not be reached.
    Unreachable,
    /// Discord's answer could not be read.
    Malformed,
}

/// How fetching the user behind the token ended.
pub enum UserOutcome {
    User { id: String, username: String },
    Rejected,
    Unreachable,
    Malformed,
}

/// Where the callback stands.
pub enum CallbackState {
    /// Discord has just redirected the browser back.
    Start,
    /// The code is being exchanged for a token.
    AwaitToken,
    /// The user behind the token is being fetched.
    AwaitUser,
    /// The administrators' table is asked whether the user is listed.
    AwaitAdminRecord { user_id: String, username: String },
    /// The administrators' table is asked how many entries it has.
    AwaitAdminCount { user_id: String, username: String },
    /// The user is being added as the first administrator.
    AwaitAdminInsert { user_id: String },
    /// A session is being opened.
    AwaitSession,
    /// The callback has answered.
    Done,
}

/// What happened since the last action.
pub enum CallbackEvent {
    /// The query Discord redirected with (first event).
    Query(CallbackQuery),
    Token(TokenOutcome),
    User(UserOutcome),
    /// How many administrator entries carry the user's id.
    AdminRecords(i64),
    /// How many administrator entries there are.
    AdminTotal(i64),
    /// The user was added as an administrator.
    AdminInserted,
    /// The session was opened and carried by this `Set-Cookie` value, or
    /// could not be stored.
    SessionOpened(Option<String>),
}

/// The final answer of a login request.
pub enum AuthReply {
    Redirect { location: String, cookie: Option<String> },
    Error(ApiError),
}

/// What the callback asks to be done next.
pub enum CallbackAction {
    /// Exchange the authorization code for an access token.
    ExchangeCode { code: String },
    /// Fetch the user the access token belongs to.
    FetchUser { access_token: String },
    /// Count the administrator entries of this user.
    CountAdminRecords { user_id: String },
    /// Count all administrator entries.
    CountAdmins,
    /// Add this user as an administrator.
    InsertAdmin { user_id: String, username: String },
    /// Open a session for this user.
    OpenSession { user_id: String },
    /// Answer the request.
    Reply(AuthReply),
}

/// The event that each state waits for.
pub open spec fn callback_expects(state: CallbackState, event: CallbackEvent) -> bool {
    match state {
        CallbackState::Start => event is Query,
        CallbackState::AwaitToken => event is Token,
        CallbackState::AwaitUser => event is User,
        CallbackState::AwaitAdminRecord { .. } => event is AdminRecords,
        CallbackState::AwaitAdminCount { .. } => event is AdminTotal,
        CallbackState::AwaitAdminInsert { .. } => event is AdminInserted,
        CallbackState::AwaitSession => event is SessionOpened,
        CallbackState::Done => false,
    }
}

pub open spec fn replies_error(r: (CallbackState, CallbackAction), status: ErrorStatus, msg: Seq<
    char,
>) -> bool {
    &&& r.0 is Done
    &&& r.1 matches CallbackAction::Reply(AuthReply::Error(e))
    &&& e@ == api_error(status, msg)
}

/// Whether the user is let in as the very first administrator: no
/// administrator exists yet and the user's id is the configured one.
pub open spec fn is_bootstrap(total: i64, initial_admin: Seq<char>, user_id: Seq<char>) -> bool {
    total == 0 && initial_admin.len() > 0 && initial_admin == user_id
}

fn bad_gateway(msg: &str) -> (r: (CallbackState, CallbackAction))
    ensures
        replies_error(r, ErrorStatus::BadGateway, msg@),
{
    (
        CallbackState::Done,
        CallbackAction::Reply(
            AuthReply::Error(ApiError::new(ErrorStatus::BadGateway, String::from_str(msg))),
        ),
    )
}

/// One step of the Discord OAuth callback. A login is admitted when the
/// `state` is a live one handed out by [`begin_login`], Discord confirms the
/// code and the user, and the user is a listed administrator or the
/// configured first one while no administrator exists.
pub fn callback_step(
    state: CallbackState,
    event: CallbackEvent,
    states: &mut OAuthStates,
    initial_admin: &str,
    now: u64,
) -> (r: (CallbackState, CallbackAction))
    requires
        callback_expects(state, event),
    ensures
        match (state, event) {
            (CallbackState::Start, CallbackEvent::Query(q)) => match q.error {
                Some(err) => r.0 is Done && (r.1 matches CallbackAction::Reply(
                    AuthReply::Redirect { location, cookie },
                ) && location@ == "/?login_error="@ + encoded(err@) && cookie is None)
                    && final(states)@ == old(states)@,
                None => match (q.code, q.state) {
                    (Some(code), Some(st)) => {
                        &&& final(states)@ == after_consume(old(states)@, st@, now)
                        &&& if accepts(old(states)@, st@, now) {
                            r.0 is AwaitToken && (r.1 matches CallbackAction::ExchangeCode { code: c }
                                && c@ == code@)
                        } else {
                            replies_error(
                                r,
                                ErrorStatus::BadRequest,
                                "Неизвестный или истёкший state — попробуй войти заново"@,
                            )
                        }
                    },
                    _ => replies_error(
                        r,
                        ErrorStatus::BadRequest,
                        "Отсутствует code или state в запросе от Discord"@,
                    ) && final(states)@ == old(states)@,
                },
            },
            (CallbackState::AwaitToken, CallbackEvent::Token(t)) => final(states)@ == old(states)@
                && match t {
                TokenOutcome::Token(tok) => r.0 is AwaitUser && (r.1 matches CallbackAction::FetchUser {
                    access_token,
                } && access_token@ == tok@),
                TokenOutcome::Rejected => replies_error(
                    r,
                    ErrorStatus::BadGateway,
                    "Discord отклонил обмен кода на токен"@,
                ),
                TokenOutcome::Unreachable => replies_error(
                    r,
                    ErrorStatus::BadGateway,
                    "Не удалось связаться с Discord"@,
                ),
                TokenOutcome::Malformed => replies_error(
                    r,
                    ErrorStatus::BadGateway,
                    "Discord вернул неожиданный ответ"@,
                ),
            },
            (CallbackState::AwaitUser, CallbackEvent::User(u)) => final(states)@ == old(states)@
                && match u {
                UserOutcome::User { id, username } => (r.0 matches CallbackState::AwaitAdminRecord {
                    user_id,
                    username: n,
                } && user_id@ == id@ && n@ == username@) && (r.1 matches CallbackAction::CountAdminRecords {
                    user_id,
                } && user_id@ == id@),
                UserOutcome::Rejected => replies_error(
                    r,
                    ErrorStatus::BadGateway,
                    "Не удалось получить данные пользователя Discord"@,
                ),
                UserOutcome::Unreachable => replies_error(
                    r,
                    ErrorStatus::BadGateway,
                    "Не удалось связаться с Discord"@,
                ),
                UserOutcome::Malformed => replies_error(
                    r,
                    ErrorStatus::BadGateway,
                    "Discord вернул неожиданный ответ о пользователе"@,
                ),
            },
            (
                CallbackState::AwaitAdminRecord { user_id, username },
                CallbackEvent::AdminRecords(n),
            ) => final(states)@ == old(states)@ && if n != 0 {
                r.0 is AwaitSession && (r.1 matches CallbackAction::OpenSession { user_id: x }
                    && x@ == user_id@)
            } else {
                (r.0 matches CallbackState::AwaitAdminCount { user_id: x, username: y } && x@
                    == user_id@ && y@ == username@) && r.1 is CountAdmins
            },
            (
                CallbackState::AwaitAdminCount { user_id, username },
                CallbackEvent::AdminTotal(total),
            ) => final(states)@ == old(states)@ && if is_bootstrap(
                total,
                initial_admin@,
                user_id@,
            ) {
                (r.0 matches CallbackState::AwaitAdminInsert { user_id: x } && x@ == user_id@) && (
                r.1 matches CallbackAction::InsertAdmin { user_id: x, username: y } && x@
                    == user_id@ && y@ == username@)
            } else {
                replies_error(
                    r,
                    ErrorStatus::Forbidden,
                    "Этому Discord-аккаунту не разрешён вход в панель"@,
                )
            },
            (CallbackState::AwaitAdminInsert { user_id }, CallbackEvent::AdminInserted) => final(states)@ == old(states)@ && r.0 is AwaitSession && (r.1 matches CallbackAction::OpenSession {
                user_id: x,
            } && x@ == user_id@),
            (CallbackState::AwaitSession, CallbackEvent::SessionOpened(c)) => final(states)@ == old(states)@ && match c {
                Some(cookie) => r.0 is Done && (r.1 matches CallbackAction::Reply(
                    AuthReply::Redirect { location, cookie: Some(x) },
                ) && location@ == "/"@ && x@ == cookie@),
                None => replies_error(r, ErrorStatus::Internal, "Не удалось создать сессию"@),
            },
            _ => false,
        },
{
    match (state, event) {
        (CallbackState::Start, CallbackEvent::Query(q)) => {
            if let Some(err) = q.error {
                let location = String::from_str("/?login_error=").concat(
                    url_encode(err.as_str()).as_str(),
                );
                return (
                    CallbackState::Done,
                    CallbackAction::Reply(AuthReply::Redirect { location, cookie: None }),
                );
            }
            match (q.code, q.state) {
                (Some(code), Some(st)) => {
                    if states.consume(st.as_str(), now) {
                        (CallbackState::AwaitToken, CallbackAction::ExchangeCode { code })
                    } else {
                        (
                            CallbackState::Done,
                            CallbackAction::Reply(
                                AuthReply::Error(
                                    ApiError::bad_request(
                                        String::from_str(
                                            "Неизвестный или истёкший state — попробуй войти заново",
                                        ),
                                    ),
                                ),
                            ),
                        )
                    }
                },
                _ => (
                    CallbackState::Done,
                    CallbackAction::Reply(
                        AuthReply::Error(
                            ApiError::bad_request(
                                String::from_str("Отсутствует code или state в запросе от Discord"),
                            ),
                        ),
                    ),
                ),
            }
        },
        (CallbackState::AwaitToken, CallbackEvent::Token(t)) => match t {
            TokenOutcome::Token(tok) => (
                CallbackState::AwaitUser,
                CallbackAction::FetchUser { access_token: tok },
            ),
            TokenOutcome::Rejected => bad_gateway("Discord отклонил обмен кода на токен"),
            TokenOutcome::Unreachable => bad_gateway("Не удалось связаться с Discord"),
            TokenOutcome::Malformed => bad_gateway("Discord вернул неожиданный ответ"),
        },
        (CallbackState::AwaitUser, CallbackEvent::User(u)) => match u {
            UserOutcome::User { id, username } => {
                let key = id.clone();
                (
                    CallbackState::AwaitAdminRecord { user_id: id, username },
                    CallbackAction::CountAdminRecords { user_id: key },
                )
            },
            UserOutcome::Rejected => bad_gateway("Не удалось получить данные пользователя Discord"),
            UserOutcome::Unreachable => bad_gateway("Не удалось связаться с Discord"),
            UserOutcome::Malformed => bad_gateway("Discord вернул неожиданный ответ о пользователе"),
        },
        (CallbackState::AwaitAdminRecord { user_id, username }, CallbackEvent::AdminRecords(n)) => {
            if n != 0 {
                (CallbackState::AwaitSession, CallbackAction::OpenSession { user_id })
            } else {
                (CallbackState::AwaitAdminCount { user_id, username }, CallbackAction::CountAdmins)
            }
        },
        (CallbackState::AwaitAdminCount { user_id, username }, CallbackEvent::AdminTotal(total)) => {
            let bootstrap = total == 0 && !initial_admin.is_empty() && str_eq(
                initial_admin,
                user_id.as_str(),
            );
            if bootstrap {
                let key = user_id.clone();
                (
                    CallbackState::AwaitAdminInsert { user_id },
                    CallbackAction::InsertAdmin { user_id: key, username },
                )
            } else {
                (
                    CallbackState::Done,
                    CallbackAction::Reply(
                        AuthReply::Error(
                            ApiError::new(
                                ErrorStatus::Forbidden,
                                String::from_str("Этому Discord-аккаунту не разрешён вход в панель"),
                            ),
                        ),
                    ),
                )
            }
        },
        (CallbackState::AwaitAdminInsert { user_id }, CallbackEvent::AdminInserted) => {
            (CallbackState::AwaitSession, CallbackAction::OpenSession { user_id })
        },
        (CallbackState::AwaitSession, CallbackEvent::SessionOpened(c)) => match c {
            Some(cookie) => (
                CallbackState::Done,
                CallbackAction::Reply(
                    AuthReply::Redirect { location: String::from_str("/"), cookie: Some(cookie) },
                ),
            ),
            None => (
                CallbackState::Done,
                CallbackAction::Reply(AuthReply::Error(session_store_error())),
            ),
        },
        _ => (CallbackState::Done, CallbackAction::Reply(AuthReply::Error(session_store_error()))),
    }
}

} // verus!
