//! The panel's view of the servers the bot is on: server ids, the lists of
//! servers, channels and roles, and each server's `/anon` settings.

use vstd::prelude::*;

use crate::anon::AnonSettingsRow;
use crate::error::{api_error, ApiError, ApiErrorView, ErrorStatus};
use crate::json::{roles_from_json, roles_json, roles_to_json, stored_roles};
use crate::order::{is_stable_order, stable_order};
use crate::text::{chars_of, lowercase, parse_u64, parse_u64_spec, str_eq, to_lowercase};

verus! {

/// The server id that a URL segment names: a decimal `u64` other than 0
/// (Discord ids are never 0).
pub open spec fn guild_id_spec(raw: Seq<char>) -> Option<u64> {
    match parse_u64_spec(raw) {
        Some(n) => if n != 0 {
            Some(n)
        } else {
            None
        },
        None => None,
    }
}

/// Reads a server id from the panel's URL; refused unless it is a decimal
/// `u64` other than 0.
pub fn parse_guild_id(raw: &str) -> (r: Result<u64, ApiError>)
    ensures
        match guild_id_spec(raw@) {
            Some(n) => r == Ok::<u64, ApiError>(n),
            None => r matches Err(e) && e@ == api_error(ErrorStatus::BadRequest, "Некорректный guild_id"@),
        },
{
    match parse_u64(raw) {
        Some(n) => {
            if n != 0 {
                return Ok(n);
            }
        },
        None => {},
    }
    Err(ApiError::bad_request(String::from_str("Некорректный guild_id")))
}

// ---------------------------------------------------------------------------
// Lists of servers, channels and roles
// ---------------------------------------------------------------------------

/// One server, channel or role as the panel lists it.
#[derive(Clone, Debug)]
pub struct Listed {
    pub id: String,
    pub name: String,
}

/// A server, channel or role that may be listed.
pub struct Candidate {
    pub id: String,
    pub name: String,
    /// Whether the entry belongs in the list.
    pub listed: bool,
}

/// Whether a role is listed: roles managed by integrations and `@everyone`
/// are not.
pub fn role_is_listed(managed: bool, name: &str) -> (b: bool)
    ensures
        b == (!managed && name@ != "@everyone"@),
{
    !managed && !str_eq(name, "@everyone")
}

pub open spec fn listed_view(c: Candidate) -> (Seq<char>, Seq<char>) {
    (c.id@, c.name@)
}

pub open spec fn is_listed() -> spec_fn(Candidate) -> bool {
    |c: Candidate| c.listed
}

/// The listed candidates, in their order, as `(id, name)` pairs.
pub open spec fn kept(cands: Seq<Candidate>) -> Seq<(Seq<char>, Seq<char>)> {
    cands.filter(is_listed()).map_values(|c: Candidate| listed_view(c))
}

pub open spec fn name_keys(entries: Seq<(Seq<char>, Seq<char>)>) -> Seq<Seq<char>> {
    entries.map_values(|e: (Seq<char>, Seq<char>)| lowercase(e.1))
}

/// `out` holds the entries in stable order by lowercased name.
pub open spec fn sorted_by_name(entries: Seq<(Seq<char>, Seq<char>)>, out: Seq<Listed>) -> bool {
    exists|p: Seq<usize>|
        {
            &&& is_stable_order(name_keys(entries), p)
            &&& out.len() == p.len()
            &&& forall|k: int|
                0 <= k < out.len() ==> (#[trigger] out[k]).id@ == entries[p[k] as int].0
                    && out[k].name@ == entries[p[k] as int].1
        }
}

/// The list the panel shows: the listed candidates, sorted by their
/// lowercased names; entries of equal names keep their order.
pub fn listing(cands: Vec<Candidate>) -> (out: Vec<Listed>)
    ensures
        sorted_by_name(kept(cands@), out@),
{
    let ghost cs = cands@;
    let mut entries: Vec<Listed> = Vec::new();
    let mut keys: Vec<Vec<char>> = Vec::new();
    let mut i: usize = 0;
    while i < cands.len()
        invariant
            i <= cands@.len(),
            cs == cands@,
            entries@.len() == keys@.len(),
            entries@.map_values(|e: Listed| (e.id@, e.name@)) == kept(cs.take(i as int)),
            keys@.map_values(|k: Vec<char>| k@) == name_keys(kept(cs.take(i as int))),
        decreases cands.len() - i,
    {
        proof {
            crate::seqs::lemma_filter_step(cs, i as int, is_listed());
        }
        if cands[i].listed {
            let e = Listed { id: cands[i].id.clone(), name: cands[i].name.clone() };
            let k = chars_of(to_lowercase(cands[i].name.as_str()).as_str());
            let ghost ev = entries@.map_values(|e: Listed| (e.id@, e.name@));
            let ghost kv = keys@.map_values(|k: Vec<char>| k@);
            entries.push(e);
            keys.push(k);
            proof {
                assert(entries@.map_values(|e: Listed| (e.id@, e.name@)) =~= ev.push(
                    listed_view(cs[i as int]),
                ));
                assert(keys@.map_values(|k: Vec<char>| k@) =~= kv.push(lowercase(cs[i as int].name@)));
                assert(kept(cs.take(i + 1)) =~= kept(cs.take(i as int)).push(listed_view(cs[i as int])));
                assert(name_keys(kept(cs.take(i + 1))) =~= name_keys(kept(cs.take(i as int))).push(
                    lowercase(cs[i as int].name@),
                ));
            }
        } else {
            proof {
                assert(kept(cs.take(i + 1)) =~= kept(cs.take(i as int)));
            }
        }
        i = i + 1;
    }
    proof {
        assert(cs.take(i as int) =~= cs);
    }
    let ghost ents = kept(cs);
    let p = stable_order(&keys);
    let mut out: Vec<Listed> = Vec::new();
    let mut k: usize = 0;
    while k < p.len()
        invariant
            k <= p@.len(),
            ents == kept(cs),
            entries@.map_values(|e: Listed| (e.id@, e.name@)) == ents,
            keys@.map_values(|k: Vec<char>| k@) == name_keys(ents),
            is_stable_order(name_keys(ents), p@),
            out@.len() == k,
            forall|j: int|
                0 <= j < k ==> (#[trigger] out@[j]).id@ == ents[p@[j] as int].0 && out@[j].name@
                    == ents[p@[j] as int].1,
        decreases p.len() - k,
    {
        let idx = p[k];
        proof {
            assert(idx < entries@.len());
            assert(ents[idx as int] == (entries@[idx as int].id@, entries@[idx as int].name@));
        }
        let e = Listed { id: entries[idx].id.clone(), name: entries[idx].name.clone() };
        out.push(e);
        k = k + 1;
    }
    proof {
        assert(out@.len() == p@.len());
    }
    out
}

// ---------------------------------------------------------------------------
// A server's `/anon` settings
// ---------------------------------------------------------------------------

/// A server's `/anon` settings as the panel shows them.
#[derive(Clone, Debug)]
pub struct AnonSettingsResponse {
    pub guild_id: String,
    pub enabled: bool,
    pub channel_id: Option<String>,
    pub allowed_role_ids: Vec<String>,
    pub cooldown_seconds: i64,
}

/// New `/anon` settings as the panel submits them.
#[derive(Clone, Debug)]
pub struct AnonSettingsInput {
    pub enabled: bool,
    pub channel_id: Option<String>,
    pub allowed_role_ids: Vec<String>,
    pub cooldown_seconds: i64,
}

pub open spec fn opt_str_view(o: Option<String>) -> Option<Seq<char>> {
    match o {
        Some(s) => Some(s@),
        None => None,
    }
}

/// The settings shown for a server: the stored ones, or, when none are
/// stored, enabled with no channel, no roles and a 30-second cooldown.
pub fn anon_settings_response(guild_id: String, row: Option<AnonSettingsRow>) -> (r:
    AnonSettingsResponse)
    ensures
        r.guild_id@ == guild_id@,
        match row {
            Some(s) => {
                &&& r.enabled == (s.enabled != 0)
                &&& opt_str_view(r.channel_id) == opt_str_view(s.channel_id)
                &&& r.allowed_role_ids.deep_view() == stored_roles(s.allowed_role_ids@)
                &&& r.cooldown_seconds == s.cooldown_seconds
            },
            None => {
                &&& r.enabled
                &&& r.channel_id is None
                &&& r.allowed_role_ids@.len() == 0
                &&& r.cooldown_seconds == 30
            },
        },
{
    let (enabled, channel_id, json, cooldown) = match row {
        Some(s) => (s.enabled, s.channel_id, s.allowed_role_ids, s.cooldown_seconds),
        None => (1i64, None, String::from_str("[]"), 30i64),
    };
    let roles = roles_from_json(json.as_str());
    AnonSettingsResponse {
        guild_id,
        enabled: enabled != 0,
        channel_id,
        allowed_role_ids: roles,
        cooldown_seconds: cooldown,
    }
}

/// The values to store for new settings.
#[derive(Clone, Debug)]
pub struct AnonSettingsRecord {
    pub guild_id: u64,
    pub enabled: i64,
    pub allowed_role_ids_json: String,
}

/// The refusal that new `/anon` settings draw, if any: the server id must be
/// a number and the cooldown lie in `0..=86400` seconds.
pub open spec fn anon_settings_check_spec(guild_id: Seq<char>, cooldown: i64) -> Option<
    ApiErrorView,
> {
    if guild_id_spec(guild_id) is None {
        Some(api_error(ErrorStatus::BadRequest, "Некорректный guild_id"@))
    } else if !(0 <= cooldown && cooldown <= 86400) {
        Some(api_error(ErrorStatus::BadRequest, "Кулдаун должен быть от 0 до 86400 секунд"@))
    } else {
        None
    }
}

/// Checks new `/anon` settings and gives what to store for them.
pub fn check_anon_settings(guild_id: &str, input: &AnonSettingsInput) -> (r: Result<
    AnonSettingsRecord,
    ApiError,
>)
    ensures
        match anon_settings_check_spec(guild_id@, input.cooldown_seconds) {
            Some(e) => r matches Err(x) && x@ == e,
            None => r matches Ok(rec) && Some(rec.guild_id) == guild_id_spec(guild_id@)
                && rec.enabled == (if input.enabled { 1i64 } else { 0i64 })
                && rec.allowed_role_ids_json@ == roles_json(input.allowed_role_ids.deep_view())
                && stored_roles(rec.allowed_role_ids_json@) == input.allowed_role_ids.deep_view(),
        },
{
    let gid = match parse_guild_id(guild_id) {
        Ok(g) => g,
        Err(e) => return Err(e),
    };
    if !(0 <= input.cooldown_seconds && input.cooldown_seconds <= 86400) {
        return Err(
            ApiError::bad_request(String::from_str("Кулдаун должен быть от 0 до 86400 секунд")),
        );
    }
    let json = roles_to_json(&input.allowed_role_ids);
    Ok(AnonSettingsRecord {
        guild_id: gid,
        enabled: if input.enabled { 1 } else { 0 },
        allowed_role_ids_json: json,
    })
}

} // verus!
