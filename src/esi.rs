use vstd::prelude::*;

use crate::json::{field, get_field, json_of_text, parse_json_text, str_of, Json};
use crate::model::CharacterInfo;
use crate::zkill::view_opt_str;

verus! {

/// Seconds to keep a profile when the response gives no usable expiry.
pub const DEFAULT_TTL_SECS: u64 = 3600;

/// The instant, in whole seconds since the Unix epoch, that the RFC 2822 date `s`
/// denotes, or `None` where `s` is no such date.
pub uninterp spec fn rfc2822_seconds(s: Seq<char>) -> Option<i64>;

/// Relies on `chrono::DateTime::parse_from_rfc2822` and `DateTime::timestamp`: the
/// instant of an RFC 2822 date, `None` where the text is no such date.
#[verifier::external_body]
fn parse_rfc2822(s: &str) -> (r: Option<i64>)
    ensures
        r == rfc2822_seconds(s@),
{
    match chrono::DateTime::parse_from_rfc2822(s) {
        Ok(d) => Some(d.timestamp()),
        Err(_) => None,
    }
}

/// The whole seconds from `now_ms` (milliseconds) until `expires` (seconds), floored at
/// zero: an expiry that is not later than `now_ms` gives zero, which means not to cache.
pub open spec fn ttl_until_spec(expires: int, now_ms: int) -> nat {
    if expires * 1000 > now_ms {
        ((expires * 1000 - now_ms) / 1000) as nat
    } else {
        0
    }
}

/// The whole seconds from `now_ms` (milliseconds) until `expires` (seconds), floored at
/// zero.
pub fn ttl_until(expires: i64, now_ms: i64) -> (r: u64)
    ensures
        r as nat == ttl_until_spec(expires as int, now_ms as int),
{
    let e = (expires as i128) * 1000;
    let n = now_ms as i128;
    if e > n {
        let secs = (e - n) / 1000;
        assert(secs <= u64::MAX) by (nonlinear_arith)
            requires
                secs == (e - n) / 1000,
                e == expires * 1000,
                n == now_ms,
                e > n,
                i64::MIN <= expires <= i64::MAX,
                i64::MIN <= now_ms <= i64::MAX,
        ;
        secs as u64
    } else {
        0
    }
}

/// The seconds a profile may be kept by the response's `expires` header, read at `now_ms`:
/// `None` where the header is missing or no RFC 2822 date, zero where it is not later.
pub fn parse_expires_to_secs(header: Option<&str>, now_ms: i64) -> (r: Option<u64>)
    ensures
        match view_opt_str(header) {
            None => r is None,
            Some(h) => match rfc2822_seconds(h) {
                None => r is None,
                Some(e) => r matches Some(t) && t as nat == ttl_until_spec(e as int, now_ms as int),
            },
        },
{
    match header {
        None => None,
        Some(h) => match parse_rfc2822(h) {
            None => None,
            Some(e) => Some(ttl_until(e, now_ms)),
        },
    }
}

/// The seconds to cache a profile fetched at `now_ms`: until the response's `expires`
/// header, floored at zero (zero: do not cache), or an hour where the header is missing or
/// no RFC 2822 date.
pub fn profile_ttl(header: Option<&str>, now_ms: i64) -> (r: u64)
    ensures
        r as nat == match view_opt_str(header) {
            None => DEFAULT_TTL_SECS as nat,
            Some(h) => match rfc2822_seconds(h) {
                None => DEFAULT_TTL_SECS as nat,
                Some(e) => ttl_until_spec(e as int, now_ms as int),
            },
        },
{
    match parse_expires_to_secs(header, now_ms) {
        Some(t) => t,
        None => DEFAULT_TTL_SECS,
    }
}

/// What the profile response of a pilot says: name, corporation, alliance.
pub struct EsiCharacter {
    pub name: String,
    pub corporation_id: i64,
    pub alliance_id: Option<i64>,
}

/// The integer member `key` of `j`.
pub open spec fn int_member(j: Json, key: Seq<char>) -> Option<i64> {
    crate::json::int_of(field(j, key))
}

/// The profile response `body` describes a pilot named `name` of corporation `corp`,
/// in alliance `alliance` where it names one.
pub open spec fn character_of(body: Seq<char>) -> Option<(Seq<char>, i64, Option<i64>)> {
    match json_of_text(body) {
        Some(j) => match (str_of(field(j, "name"@)), int_member(j, "corporation_id"@)) {
            (Some(n), Some(c)) => Some((n, c, int_member(j, "alliance_id"@))),
            _ => None,
        },
        None => None,
    }
}

/// The name and ticker that an affiliation response `body` gives.
pub open spec fn affiliation_of(body: Seq<char>) -> Option<(Seq<char>, Seq<char>)> {
    match json_of_text(body) {
        Some(j) => match (str_of(field(j, "name"@)), str_of(field(j, "ticker"@))) {
            (Some(n), Some(t)) => Some((n, t)),
            _ => None,
        },
        None => None,
    }
}

/// The text of the string member `key` of `j`.
fn get_str(j: &Json, key: &str) -> (r: Option<String>)
    ensures
        r matches Some(s) ==> str_of(field(*j, key@)) == Some(s@),
        r is None ==> str_of(field(*j, key@)) is None,
{
    match get_field(j, key) {
        Some(Json::Str(s)) => Some(s.clone()),
        _ => None,
    }
}

/// The integer member `key` of `j`.
fn get_int(j: &Json, key: &str) -> (r: Option<i64>)
    ensures
        r == int_member(*j, key@),
{
    crate::json::as_int(get_field(j, key))
}

/// The pilot that a profile response describes; an error where it is not JSON or lacks
/// the name or the corporation.
pub fn decode_character(body: &str) -> (r: Result<EsiCharacter, String>)
    ensures
        match character_of(body@) {
            None => r is Err,
            Some((n, c, a)) => r matches Ok(e) && e.name@ == n && e.corporation_id == c
                && e.alliance_id == a,
        },
{
    let json = match parse_json_text(body) {
        Some(j) => j,
        None => {
            return Err(String::from_str("Failed to parse character"));
        },
    };
    let name = get_str(&json, "name");
    let corp = get_int(&json, "corporation_id");
    match (name, corp) {
        (Some(name), Some(corporation_id)) => Ok(
            EsiCharacter { name, corporation_id, alliance_id: get_int(&json, "alliance_id") },
        ),
        _ => Err(String::from_str("Failed to parse character")),
    }
}

/// The name and ticker that a corporation or alliance response gives, where it gives both.
pub fn decode_affiliation(body: &str) -> (r: Option<(String, String)>)
    ensures
        match affiliation_of(body@) {
            None => r is None,
            Some((n, t)) => r matches Some(p) && p.0@ == n && p.1@ == t,
        },
{
    let json = match parse_json_text(body) {
        Some(j) => j,
        None => {
            return None;
        },
    };
    match (get_str(&json, "name"), get_str(&json, "ticker")) {
        (Some(n), Some(t)) => Some((n, t)),
        _ => None,
    }
}

/// The profile of pilot `id` from its profile response and, where they were fetched, the
/// name and ticker of its corporation and of its alliance.
pub fn assemble_character(
    id: i64,
    esi: EsiCharacter,
    corporation: Option<(String, String)>,
    alliance: Option<(String, String)>,
) -> (r: CharacterInfo)
    ensures
        r.id == id,
        r.name == esi.name,
        r.corporation_id == Some(esi.corporation_id),
        r.alliance_id == esi.alliance_id,
        corporation matches Some(c) ==> r.corporation_name == Some(c.0) && r.corporation_ticker
            == Some(c.1),
        corporation is None ==> r.corporation_name is None && r.corporation_ticker is None,
        alliance matches Some(a) ==> r.alliance_name == Some(a.0) && r.alliance_ticker == Some(
            a.1,
        ),
        alliance is None ==> r.alliance_name is None && r.alliance_ticker is None,
{
    let (corporation_name, corporation_ticker) = match corporation {
        Some((n, t)) => (Some(n), Some(t)),
        None => (None, None),
    };
    let (alliance_name, alliance_ticker) = match alliance {
        Some((n, t)) => (Some(n), Some(t)),
        None => (None, None),
    };
    CharacterInfo {
        id,
        name: esi.name,
        corporation_id: Some(esi.corporation_id),
        corporation_name,
        corporation_ticker,
        alliance_id: esi.alliance_id,
        alliance_name,
        alliance_ticker,
    }
}

/// The lower-case form of `s`.
pub uninterp spec fn lower_of(s: Seq<char>) -> Seq<char>;

/// Relies on `str::to_lowercase`: the lower-case form, which depends on the characters
/// alone.
#[verifier::external_body]
fn lowercase(s: &str) -> (r: String)
    ensures
        r@ == lower_of(s@),
{
    s.to_lowercase()
}

/// The id of the last entry of `es` whose key is `key`.
pub open spec fn id_in(es: Seq<(Seq<char>, i64)>, key: Seq<char>) -> Option<i64>
    decreases es.len(),
{
    if es.len() == 0 {
        None
    } else if es.last().0 == key {
        Some(es.last().1)
    } else {
        id_in(es.drop_last(), key)
    }
}

/// The pairs of an id response `body`: each character entry with a string name and an
/// integer id, in order.
pub open spec fn id_entries(es: Seq<Json>) -> Seq<(Seq<char>, i64)>
    decreases es.len(),
{
    if es.len() == 0 {
        Seq::empty()
    } else {
        let rest = id_entries(es.drop_last());
        match (str_of(field(es.last(), "name"@)), int_member(es.last(), "id"@)) {
            (Some(n), Some(i)) => rest.push((n, i)),
            _ => rest,
        }
    }
}

/// The names and ids that an id response gives, `None` where it is not JSON.
pub open spec fn resolved_of(body: Seq<char>) -> Option<Seq<(Seq<char>, i64)>> {
    match json_of_text(body) {
        Some(j) => Some(
            match crate::json::array_of(field(j, "characters"@)) {
                Some(es) => id_entries(es),
                None => Seq::empty(),
            },
        ),
        None => None,
    }
}

/// The ids of resolved names, looked up without regard to case.
pub struct IdMap {
    pub entries: Vec<(String, i64)>,
}

impl View for IdMap {
    type V = Seq<(Seq<char>, i64)>;

    open spec fn view(&self) -> Seq<(Seq<char>, i64)> {
        self.entries@.map_values(|e: (String, i64)| (e.0@, e.1))
    }
}

/// `m` holds, in order, the lower-case forms of the names of `resolved` with their ids.
pub open spec fn lowered(resolved: Seq<(Seq<char>, i64)>) -> Seq<(Seq<char>, i64)> {
    resolved.map_values(|e: (Seq<char>, i64)| (lower_of(e.0), e.1))
}

impl IdMap {
    /// The id of `name`, by its lower-case form; the last resolution of a name counts.
    pub fn get(&self, name: &str) -> (r: Option<i64>)
        ensures
            r == id_in(self@, lower_of(name@)),
    {
        let key = lowercase(name);
        let mut i: usize = self.entries.len();
        assert(self@.subrange(0, i as int) =~= self@);
        while i > 0
            invariant
                i <= self.entries@.len(),
                key@ == lower_of(name@),
                id_in(self@, key@) == id_in(self@.subrange(0, i as int), key@),
            decreases i,
        {
            let ghost pre = self@.subrange(0, i as int);
            assert(pre.drop_last() =~= self@.subrange(0, i - 1));
            let e = &self.entries[i - 1];
            assert(pre.last() == (e.0@, e.1));
            if crate::json::str_eq(e.0.as_str(), key.as_str()) {
                return Some(e.1);
            }
            i = i - 1;
        }
        None
    }
}

/// The names and ids of an id response, keyed by lower-case name; an error where the
/// response is not JSON.
pub fn decode_ids(body: &str) -> (r: Result<IdMap, String>)
    ensures
        match resolved_of(body@) {
            None => r is Err,
            Some(es) => r matches Ok(m) && m@ == lowered(es),
        },
{
    let json = match parse_json_text(body) {
        Some(j) => j,
        None => {
            return Err(String::from_str("Failed to parse ESI response"));
        },
    };
    let mut entries: Vec<(String, i64)> = Vec::new();
    match get_field(&json, "characters") {
        Some(Json::Array(es)) => {
            let mut k: usize = 0;
            while k < es.len()
                invariant
                    k <= es@.len(),
                    crate::json::array_of(field(json, "characters"@)) == Some(es@),
                    entries@.map_values(|e: (String, i64)| (e.0@, e.1)) == lowered(
                        id_entries(es@.subrange(0, k as int)),
                    ),
                decreases es@.len() - k,
            {
                let ghost pre = es@.subrange(0, k + 1);
                assert(pre.drop_last() =~= es@.subrange(0, k as int));
                assert(pre.last() == es@[k as int]);
                let e = &es[k];
                match (get_str(e, "name"), get_int(e, "id")) {
                    (Some(n), Some(id)) => {
                        let ghost before = entries@;
                        let low = lowercase(n.as_str());
                        let ghost prev = id_entries(es@.subrange(0, k as int));
                        assert(id_entries(pre) == prev.push((n@, id)));
                        assert(lowered(prev.push((n@, id))) =~= lowered(prev).push((low@, id)));
                        entries.push((low, id));
                        assert(entries@.map_values(|e: (String, i64)| (e.0@, e.1)) =~= before.map_values(
                            |e: (String, i64)| (e.0@, e.1),
                        ).push((low@, id)));
                        assert(entries@.map_values(|e: (String, i64)| (e.0@, e.1)) =~= lowered(
                            id_entries(pre),
                        ));
                    },
                    _ => {
                        assert(lowered(id_entries(pre)) == lowered(
                            id_entries(es@.subrange(0, k as int)),
                        ));
                    },
                }
                k = k + 1;
            }
            assert(es@.subrange(0, k as int) =~= es@);
        },
        _ => {
            assert(entries@.map_values(|e: (String, i64)| (e.0@, e.1)) =~= lowered(
                Seq::empty(),
            ));
        },
    }
    Ok(IdMap { entries })
}

} // verus!
