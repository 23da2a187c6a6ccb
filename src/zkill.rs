use vstd::prelude::*;

use crate::json::{
    array_of, as_int, field, get_field, int_field, int_field_or, int_of, json_of_text,
    object_of, parse_json_text, str_eq, str_of, whole_field, whole_field_or, Json,
};
use crate::cache::{expiry, lemma_hit_within_ttl, live};
use crate::model::{ActivityHeatmap, FetchResult, ShipStats, SystemStats, ZkillStats};
use crate::text::{
    has_prefix, parse_u64, parse_unsigned, parse_usize, split_char, split_on, starts_with, trim,
    trimmed,
};

verus! {

/// Seconds to keep statistics when the response does not say.
pub const DEFAULT_TTL_SECS: u64 = 3600;

/// Seconds to keep an empty result, which is likely to fill soon.
pub const EMPTY_TTL_SECS: u64 = 300;

/// The most entries read from one top list.
pub const TOP_LIST_LEN: usize = 5;

/// Days of the week in a heatmap.
pub const HEATMAP_DAYS: usize = 7;

/// Hours of the day in a heatmap.
pub const HEATMAP_HOURS: usize = 24;

/// The string member `key` of `j`, or `default` where it is missing or not a string.
pub open spec fn str_field_or(j: Json, key: Seq<char>, default: Seq<char>) -> Seq<char> {
    match str_of(field(j, key)) {
        Some(s) => s,
        None => default,
    }
}

/// The fields of a ship entry: type id, name, group id, group name, kills, losses.
pub type ShipView = (i64, Seq<char>, i64, Seq<char>, i64, i64);

/// The fields of a system entry: id, name, kills.
pub type SystemView = (i64, Seq<char>, i64);

pub open spec fn ship_view(s: ShipStats) -> ShipView {
    (s.ship_type_id, s.ship_name@, s.group_id, s.group_name@, s.kills, s.losses)
}

pub open spec fn system_view(s: SystemStats) -> SystemView {
    (s.system_id, s.system_name@, s.kills)
}

pub open spec fn ship_views(s: Seq<ShipStats>) -> Seq<ShipView> {
    s.map_values(|x: ShipStats| ship_view(x))
}

pub open spec fn system_views(s: Seq<SystemStats>) -> Seq<SystemView> {
    s.map_values(|x: SystemStats| system_view(x))
}

/// The ship that one entry of a ship list describes.
pub open spec fn ship_entry(v: Json) -> ShipView {
    (
        int_field_or(v, "shipTypeID"@, 0),
        str_field_or(v, "shipName"@, "Unknown"@),
        int_field_or(v, "groupID"@, 0),
        str_field_or(v, "groupName"@, "Unknown"@),
        int_field_or(v, "kills"@, 0),
        int_field_or(v, "losses"@, 0),
    )
}

/// The system that one entry of a system list describes.
pub open spec fn system_entry(v: Json) -> SystemView {
    (
        int_field_or(v, "solarSystemID"@, 0),
        str_field_or(v, "solarSystemName"@, "Unknown"@),
        int_field_or(v, "kills"@, 0),
    )
}

/// The ships of `vals` whose type id is positive.
pub open spec fn ships_of_values(vals: Seq<Json>) -> Seq<ShipView>
    decreases vals.len(),
{
    if vals.len() == 0 {
        Seq::empty()
    } else {
        let rest = ships_of_values(vals.drop_last());
        let e = ship_entry(vals.last());
        if e.0 > 0 {
            rest.push(e)
        } else {
            rest
        }
    }
}

/// The systems of `vals` whose id is positive.
pub open spec fn systems_of_values(vals: Seq<Json>) -> Seq<SystemView>
    decreases vals.len(),
{
    if vals.len() == 0 {
        Seq::empty()
    } else {
        let rest = systems_of_values(vals.drop_last());
        let e = system_entry(vals.last());
        if e.0 > 0 {
            rest.push(e)
        } else {
            rest
        }
    }
}

/// The first entries of a top list, at most five.
pub open spec fn head_values(vals: Seq<Json>) -> Seq<Json> {
    if vals.len() <= TOP_LIST_LEN {
        vals
    } else {
        vals.take(TOP_LIST_LEN as int)
    }
}

/// All entries of top list `l` where its type is `kind`.
pub open spec fn all_list_values(l: Json, kind: Seq<char>) -> Seq<Json> {
    if str_of(field(l, "type"@)) == Some(kind) {
        match array_of(field(l, "values"@)) {
            Some(vals) => vals,
            None => Seq::empty(),
        }
    } else {
        Seq::empty()
    }
}

/// The entries of top list `l` that are read, at most five, where its type is `kind`.
pub open spec fn list_values(l: Json, kind: Seq<char>) -> Seq<Json> {
    head_values(all_list_values(l, kind))
}

/// The ships of every ship-type list among `ls`, in order.
pub open spec fn ships_in_lists(ls: Seq<Json>) -> Seq<ShipView>
    decreases ls.len(),
{
    if ls.len() == 0 {
        Seq::empty()
    } else {
        ships_in_lists(ls.drop_last()) + ships_of_values(list_values(ls.last(), "shipType"@))
    }
}

/// The systems of every solar-system list among `ls`, in order.
pub open spec fn systems_in_lists(ls: Seq<Json>) -> Seq<SystemView>
    decreases ls.len(),
{
    if ls.len() == 0 {
        Seq::empty()
    } else {
        systems_in_lists(ls.drop_last()) + systems_of_values(
            list_values(ls.last(), "solarSystem"@),
        )
    }
}

/// The top lists of a statistics document.
pub open spec fn top_lists(json: Json) -> Seq<Json> {
    match array_of(field(json, "topLists"@)) {
        Some(ls) => ls,
        None => Seq::empty(),
    }
}

/// The key of day `d` in the activity object.
pub open spec fn day_key(d: int) -> Seq<char> {
    if d == 0 {
        "0"@
    } else if d == 1 {
        "1"@
    } else if d == 2 {
        "2"@
    } else if d == 3 {
        "3"@
    } else if d == 4 {
        "4"@
    } else if d == 5 {
        "5"@
    } else {
        "6"@
    }
}

/// The count for hour `h` among the members of a day: the last member whose key reads as
/// `h` decides, a count that is not an integer reads as zero, and no such member as zero.
pub open spec fn cell_of_members(es: Seq<(String, Json)>, h: nat) -> i64
    decreases es.len(),
{
    if es.len() == 0 {
        0
    } else if parse_unsigned(es.last().0@, usize::MAX as nat) == Some(h) {
        match int_of(Some(es.last().1)) {
            Some(n) => n,
            None => 0,
        }
    } else {
        cell_of_members(es.drop_last(), h)
    }
}

/// The count of day `d`, hour `h` in activity object `a`.
pub open spec fn heat_cell(a: Json, d: int, h: nat) -> i64 {
    match object_of(field(a, day_key(d))) {
        Some(es) => cell_of_members(es, h),
        None => 0,
    }
}

/// `m` is the heatmap of activity object `a`: seven rows of twenty-four counts.
pub open spec fn is_heatmap_of(m: ActivityHeatmap, a: Json) -> bool {
    &&& m.max == int_field_or(a, "max"@, 1)
    &&& m.data@.len() == HEATMAP_DAYS
    &&& forall|d: int| 0 <= d < HEATMAP_DAYS ==> (#[trigger] m.data@[d])@.len() == HEATMAP_HOURS
    &&& forall|d: int, h: int|
        0 <= d < HEATMAP_DAYS && 0 <= h < HEATMAP_HOURS ==> #[trigger] m.data@[d]@[h]
            == heat_cell(a, d, h as nat)
}

/// `s` holds what statistics document `json` says.
pub open spec fn is_stats_of(s: ZkillStats, json: Json) -> bool {
    &&& s.ships_destroyed == int_field_or(json, "shipsDestroyed"@, 0)
    &&& s.ships_lost == int_field_or(json, "shipsLost"@, 0)
    &&& s.isk_destroyed == whole_field_or(json, "iskDestroyed"@, 0)
    &&& s.isk_lost == whole_field_or(json, "iskLost"@, 0)
    &&& s.solo_kills == int_field_or(json, "soloKills"@, 0)
    &&& s.solo_losses == int_field_or(json, "soloLosses"@, 0)
    &&& s.danger_ratio == whole_field_or(json, "dangerRatio"@, 0)
    &&& s.gang_ratio == whole_field_or(json, "gangRatio"@, 0)
    &&& s.points_destroyed == int_field_or(json, "pointsDestroyed"@, 0)
    &&& s.active_pvp_kills == active_pvp_kills_of(json)
    &&& ship_views(s.top_ships@) == ships_in_lists(top_lists(json))
    &&& system_views(s.top_systems@) == systems_in_lists(top_lists(json))
    &&& match field(json, "activity"@) {
        None => s.activity is None,
        Some(a) => s.activity matches Some(m) && is_heatmap_of(m, a),
    }
}

/// The count of recent kills, under `activepvp.kills.count`.
pub open spec fn active_pvp_kills_of(json: Json) -> i64 {
    match field(json, "activepvp"@) {
        Some(p) => match field(p, "kills"@) {
            Some(k) => int_field_or(k, "count"@, 0),
            None => 0,
        },
        None => 0,
    }
}

/// The string member `key` of `j`, or `default` where it is missing or not a string.
pub fn str_field(j: &Json, key: &str, default: &str) -> (r: String)
    ensures
        r@ == str_field_or(*j, key@, default@),
{
    match get_field(j, key) {
        Some(Json::Str(s)) => s.clone(),
        _ => String::from_str(default),
    }
}

/// All entries of top list `l` where its type is `kind`.
fn list_entries<'a>(l: &'a Json, kind: &str) -> (r: &'a [Json])
    ensures
        r@ == all_list_values(*l, kind@),
{
    let empty: &[Json] = &[];
    assert(empty@ =~= Seq::<Json>::empty());
    let is_kind = match get_field(l, "type") {
        Some(Json::Str(t)) => str_eq(t.as_str(), kind),
        _ => false,
    };
    if !is_kind {
        return empty;
    }
    match get_field(l, "values") {
        Some(Json::Array(vals)) => vals.as_slice(),
        _ => empty,
    }
}

/// Appends to `out` the ships with a positive type id among `vals`.
fn push_ships(vals: &[Json], n: usize, out: &mut Vec<ShipStats>)
    requires
        n <= vals@.len(),
    ensures
        ship_views(final(out)@) == ship_views(old(out)@) + ships_of_values(vals@.take(n as int)),
{
    let ghost start = ship_views(out@);
    let mut i: usize = 0;
    while i < n
        invariant
            i <= n <= vals@.len(),
            ship_views(out@) == start + ships_of_values(vals@.subrange(0, i as int)),
        decreases vals@.len() - i,
    {
        assert(vals@.subrange(0, i + 1).drop_last() =~= vals@.subrange(0, i as int));
        let v = &vals[i];
        let ship_type_id = int_field(v, "shipTypeID", 0);
        if ship_type_id > 0 {
            let ship = ShipStats {
                ship_type_id,
                ship_name: str_field(v, "shipName", "Unknown"),
                group_id: int_field(v, "groupID", 0),
                group_name: str_field(v, "groupName", "Unknown"),
                kills: int_field(v, "kills", 0),
                losses: int_field(v, "losses", 0),
            };
            let ghost before = out@;
            out.push(ship);
            assert(ship_views(out@) =~= ship_views(before).push(ship_view(ship)));
        }
        i = i + 1;
    }
    assert(vals@.subrange(0, i as int) =~= vals@.take(n as int));
}

/// Appends to `out` the systems with a positive id among `vals`.
fn push_systems(vals: &[Json], n: usize, out: &mut Vec<SystemStats>)
    requires
        n <= vals@.len(),
    ensures
        system_views(final(out)@) == system_views(old(out)@) + systems_of_values(vals@.take(n as int)),
{
    let ghost start = system_views(out@);
    let mut i: usize = 0;
    while i < n
        invariant
            i <= n <= vals@.len(),
            system_views(out@) == start + systems_of_values(vals@.subrange(0, i as int)),
        decreases vals@.len() - i,
    {
        assert(vals@.subrange(0, i + 1).drop_last() =~= vals@.subrange(0, i as int));
        let v = &vals[i];
        let system_id = int_field(v, "solarSystemID", 0);
        if system_id > 0 {
            let sys = SystemStats {
                system_id,
                system_name: str_field(v, "solarSystemName", "Unknown"),
                kills: int_field(v, "kills", 0),
            };
            let ghost before = out@;
            out.push(sys);
            assert(system_views(out@) =~= system_views(before).push(system_view(sys)));
        }
        i = i + 1;
    }
    assert(vals@.subrange(0, i as int) =~= vals@.take(n as int));
}

/// The top lists of a statistics document, empty where there are none.
fn get_top_lists(json: &Json) -> (r: &[Json])
    ensures
        r@ == top_lists(*json),
{
    match get_field(json, "topLists") {
        Some(Json::Array(ls)) => ls.as_slice(),
        _ => {
            let empty: &[Json] = &[];
            assert(empty@ =~= Seq::<Json>::empty());
            empty
        },
    }
}

/// The ships a pilot flies most: the first five entries of each ship-type list, without
/// those whose type id is not positive.
pub fn parse_top_ships(json: &Json) -> (r: Vec<ShipStats>)
    ensures
        ship_views(r@) == ships_in_lists(top_lists(*json)),
{
    let lists = get_top_lists(json);
    let mut out: Vec<ShipStats> = Vec::new();
    let mut i: usize = 0;
    assert(ship_views(out@) =~= Seq::<ShipView>::empty());
    while i < lists.len()
        invariant
            i <= lists@.len(),
            lists@ == top_lists(*json),
            ship_views(out@) == ships_in_lists(lists@.subrange(0, i as int)),
        decreases lists@.len() - i,
    {
        assert(lists@.subrange(0, i + 1).drop_last() =~= lists@.subrange(0, i as int));
        let vals = list_entries(&lists[i], "shipType");
        let n = if vals.len() <= TOP_LIST_LEN {
            vals.len()
        } else {
            TOP_LIST_LEN
        };
        assert(vals@.take(n as int) =~= head_values(vals@));
        push_ships(vals, n, &mut out);
        i = i + 1;
    }
    assert(lists@.subrange(0, i as int) =~= lists@);
    out
}

/// The systems a pilot is most active in: the first five entries of each solar-system
/// list, without those whose id is not positive.
pub fn parse_top_systems(json: &Json) -> (r: Vec<SystemStats>)
    ensures
        system_views(r@) == systems_in_lists(top_lists(*json)),
{
    let lists = get_top_lists(json);
    let mut out: Vec<SystemStats> = Vec::new();
    let mut i: usize = 0;
    assert(system_views(out@) =~= Seq::<SystemView>::empty());
    while i < lists.len()
        invariant
            i <= lists@.len(),
            lists@ == top_lists(*json),
            system_views(out@) == systems_in_lists(lists@.subrange(0, i as int)),
        decreases lists@.len() - i,
    {
        assert(lists@.subrange(0, i + 1).drop_last() =~= lists@.subrange(0, i as int));
        let vals = list_entries(&lists[i], "solarSystem");
        let n = if vals.len() <= TOP_LIST_LEN {
            vals.len()
        } else {
            TOP_LIST_LEN
        };
        assert(vals@.take(n as int) =~= head_values(vals@));
        push_systems(vals, n, &mut out);
        i = i + 1;
    }
    assert(lists@.subrange(0, i as int) =~= lists@);
    out
}

/// The key of day `d` in the activity object.
fn day_key_str(d: usize) -> (r: &'static str)
    requires
        d < HEATMAP_DAYS,
    ensures
        r@ == day_key(d as int),
{
    if d == 0 {
        "0"
    } else if d == 1 {
        "1"
    } else if d == 2 {
        "2"
    } else if d == 3 {
        "3"
    } else if d == 4 {
        "4"
    } else if d == 5 {
        "5"
    } else {
        "6"
    }
}

/// The twenty-four hourly counts of day `d` in activity object `a`.
fn heat_row(a: &Json, d: usize) -> (r: Vec<i64>)
    requires
        d < HEATMAP_DAYS,
    ensures
        r@.len() == HEATMAP_HOURS,
        forall|h: int| 0 <= h < HEATMAP_HOURS ==> r@[h] == heat_cell(*a, d as int, h as nat),
{
    let mut row: Vec<i64> = Vec::new();
    while row.len() < HEATMAP_HOURS
        invariant
            row@.len() <= HEATMAP_HOURS,
            forall|h: int| 0 <= h < row@.len() ==> row@[h] == 0,
        decreases HEATMAP_HOURS - row@.len(),
    {
        row.push(0);
    }
    match get_field(a, day_key_str(d)) {
        Some(Json::Object(es)) => {
            let mut k: usize = 0;
            while k < es.len()
                invariant
                    k <= es@.len(),
                    object_of(field(*a, day_key(d as int))) == Some(es@),
                    row@.len() == HEATMAP_HOURS,
                    forall|h: int|
                        0 <= h < HEATMAP_HOURS ==> row@[h] == cell_of_members(
                            es@.subrange(0, k as int),
                            h as nat,
                        ),
                decreases es@.len() - k,
            {
                let ghost prefix = es@.subrange(0, k + 1);
                assert(prefix.drop_last() =~= es@.subrange(0, k as int));
                assert(prefix.last() == es@[k as int]);
                let entry = &es[k];
                match parse_usize(entry.0.as_str()) {
                    Some(h) => {
                        if h < HEATMAP_HOURS {
                            let count = match as_int(Some(&entry.1)) {
                                Some(n) => n,
                                None => 0,
                            };
                            row.set(h, count);
                        }
                    },
                    None => {},
                }
                k = k + 1;
            }
            assert(es@.subrange(0, k as int) =~= es@);
        },
        _ => {},
    }
    row
}

/// The heatmap of a statistics document, where it has an activity member: seven rows of
/// twenty-four counts, zero where the document gives none; keys out of range are ignored.
pub fn parse_activity(json: &Json) -> (r: Option<ActivityHeatmap>)
    ensures
        match field(*json, "activity"@) {
            None => r is None,
            Some(a) => r matches Some(m) && is_heatmap_of(m, a),
        },
{
    let a = match get_field(json, "activity") {
        Some(a) => a,
        None => {
            return None;
        },
    };
    let max = int_field(a, "max", 1);
    let mut data: Vec<Vec<i64>> = Vec::new();
    let mut d: usize = 0;
    while d < HEATMAP_DAYS
        invariant
            d <= HEATMAP_DAYS,
            data@.len() == d,
            forall|e: int| 0 <= e < d ==> (#[trigger] data@[e])@.len() == HEATMAP_HOURS,
            forall|e: int, h: int|
                0 <= e < d && 0 <= h < HEATMAP_HOURS ==> #[trigger] data@[e]@[h] == heat_cell(
                    *a,
                    e,
                    h as nat,
                ),
        decreases HEATMAP_DAYS - d,
    {
        let row = heat_row(a, d);
        data.push(row);
        d = d + 1;
    }
    Some(ActivityHeatmap { max, data })
}

/// The count of recent kills, under `activepvp.kills.count`.
fn active_pvp_kills(json: &Json) -> (r: i64)
    ensures
        r == active_pvp_kills_of(*json),
{
    match get_field(json, "activepvp") {
        Some(p) => match get_field(p, "kills") {
            Some(k) => int_field(k, "count", 0),
            None => 0,
        },
        None => 0,
    }
}

/// The statistics that a statistics document gives; what it lacks reads as zero or empty.
pub fn parse_zkill_response(json: &Json) -> (r: ZkillStats)
    ensures
        is_stats_of(r, *json),
{
    ZkillStats {
        ships_destroyed: int_field(json, "shipsDestroyed", 0),
        ships_lost: int_field(json, "shipsLost", 0),
        isk_destroyed: whole_field(json, "iskDestroyed", 0),
        isk_lost: whole_field(json, "iskLost", 0),
        solo_kills: int_field(json, "soloKills", 0),
        solo_losses: int_field(json, "soloLosses", 0),
        danger_ratio: whole_field(json, "dangerRatio", 0),
        gang_ratio: whole_field(json, "gangRatio", 0),
        points_destroyed: int_field(json, "pointsDestroyed", 0),
        active_pvp_kills: active_pvp_kills(json),
        top_ships: parse_top_ships(json),
        activity: parse_activity(json),
        top_systems: parse_top_systems(json),
    }
}

/// The `max-age` among the comma-separated directives `parts`: the first directive that
/// starts with `max-age=` decides, and its value must read as a `u64`.
pub open spec fn max_age_in(parts: Seq<Seq<char>>) -> Option<nat>
    decreases parts.len(),
{
    if parts.len() == 0 {
        None
    } else {
        let p = trimmed(parts[0]);
        if has_prefix(p, "max-age="@) {
            parse_unsigned(p.subrange("max-age="@.len() as int, p.len() as int), u64::MAX as nat)
        } else {
            max_age_in(parts.drop_first())
        }
    }
}

/// The `max-age` of a `cache-control` header, where there is one.
pub open spec fn max_age_of(header: Option<Seq<char>>) -> Option<nat> {
    match header {
        None => None,
        Some(h) => max_age_in(split_on(h, ',')),
    }
}

pub open spec fn view_opt_str(s: Option<&str>) -> Option<Seq<char>> {
    match s {
        Some(t) => Some(t@),
        None => None,
    }
}

/// The seconds that a `cache-control` header allows a response to be kept.
pub fn parse_max_age_secs(header: Option<&str>) -> (r: Option<u64>)
    ensures
        r matches Some(v) ==> max_age_of(view_opt_str(header)) == Some(v as nat),
        r is None ==> max_age_of(view_opt_str(header)) is None,
{
    let h = match header {
        Some(h) => h,
        None => {
            return None;
        },
    };
    let parts = split_char(h, ',');
    let ghost all = split_on(h@, ',');
    let prefix = "max-age=";
    proof {
        reveal_strlit("max-age=");
    }
    let mut i: usize = 0;
    assert(all.subrange(0, all.len() as int) =~= all);
    while i < parts.len()
        invariant
            i <= parts@.len(),
            parts@.len() == all.len(),
            all == split_on(h@, ','),
            forall|k: int| 0 <= k < parts@.len() ==> (#[trigger] parts@[k])@ == all[k],
            max_age_in(all) == max_age_in(all.subrange(i as int, all.len() as int)),
            prefix@.len() == 8,
            prefix@ == "max-age="@,
            "max-age="@.len() == 8,
            view_opt_str(header) == Some(h@),
        decreases parts@.len() - i,
    {
        let ghost rest = all.subrange(i as int, all.len() as int);
        assert(rest.drop_first() =~= all.subrange(i + 1, all.len() as int));
        assert(rest[0] == all[i as int]);
        let part = trim(parts[i]);
        assert(part@ == trimmed(rest[0]));
        if starts_with(part, prefix) {
            let value = part.substring_char(8, part.unicode_len());
            assert(max_age_in(rest) == parse_unsigned(value@, u64::MAX as nat));
            return parse_u64(value);
        }
        i = i + 1;
    }
    None
}

/// What became of a network request for statistics: the result to hand back, and the
/// seconds for which to cache its statistics, if they are to be cached.
pub struct StatsOutcome {
    pub result: FetchResult,
    pub cache_ttl: Option<u64>,
}

/// A body that stands for a pilot without recorded activity.
pub open spec fn is_empty_body(body: Seq<char>) -> bool {
    body.len() == 0 || body == "[]"@
}

/// The seconds to cache statistics for, by a `cache-control` header: its `max-age`, or
/// an hour.
pub open spec fn ttl_for(header: Option<Seq<char>>) -> nat {
    match max_age_of(header) {
        Some(m) => m,
        None => DEFAULT_TTL_SECS as nat,
    }
}

/// Empty statistics, not from the cache, to be cached for `ttl`.
pub open spec fn is_empty_outcome(r: Result<StatsOutcome, String>, ttl: Option<u64>) -> bool {
    match r {
        Ok(o) => o.result.stats.is_empty_stats() && !o.result.from_cache && o.cache_ttl == ttl,
        Err(_) => false,
    }
}

/// The statistics of document `j`, not from the cache, to be cached for `ttl` seconds.
pub open spec fn is_parsed_outcome(r: Result<StatsOutcome, String>, j: Json, ttl: nat) -> bool {
    match r {
        Ok(o) => is_stats_of(o.result.stats, j) && !o.result.from_cache && o.cache_ttl is Some
            && o.cache_ttl.unwrap() as nat == ttl,
        Err(_) => false,
    }
}

/// The statistics response decided: `status_ok` tells a success status, `cache_control`
/// is the response's header and `body` its text. A failed status gives empty statistics,
/// not cached; an empty body gives empty statistics, cached for five minutes; a body that
/// is not JSON is an error; any other body gives its statistics, cached for the header's
/// `max-age`, or an hour.
pub fn stats_from_response(status_ok: bool, cache_control: Option<&str>, body: &str) -> (r: Result<
    StatsOutcome,
    String,
>)
    ensures
        !status_ok ==> is_empty_outcome(r, None),
        status_ok && is_empty_body(body@) ==> is_empty_outcome(r, Some(EMPTY_TTL_SECS)),
        status_ok && !is_empty_body(body@) ==> match json_of_text(body@) {
            None => r is Err,
            Some(j) => is_parsed_outcome(r, j, ttl_for(view_opt_str(cache_control))),
        },
{
    if !status_ok {
        return Ok(
            StatsOutcome {
                result: FetchResult { stats: ZkillStats::empty(), from_cache: false },
                cache_ttl: None,
            },
        );
    }
    let ttl = match parse_max_age_secs(cache_control) {
        Some(t) => t,
        None => DEFAULT_TTL_SECS,
    };
    if body.unicode_len() == 0 || str_eq(body, "[]") {
        return Ok(
            StatsOutcome {
                result: FetchResult { stats: ZkillStats::empty(), from_cache: false },
                cache_ttl: Some(EMPTY_TTL_SECS),
            },
        );
    }
    match parse_json_text(body) {
        None => {
            let msg = "Failed to parse zKill JSON";
            Err(String::from_str(msg))
        },
        Some(json) => {
            let stats = parse_zkill_response(&json);
            Ok(StatsOutcome { result: FetchResult { stats, from_cache: false }, cache_ttl: Some(ttl) })
        },
    }
}

/// What a statistics fetch does first: answer from the cache, or send a request.
pub enum StatsStep {
    Cached(FetchResult),
    Request,
}

/// The first step of a statistics fetch, by what the cache holds for the pilot.
pub open spec fn stats_step_of(cached: Option<ZkillStats>) -> StatsStep {
    match cached {
        Some(s) => StatsStep::Cached(FetchResult { stats: s, from_cache: true }),
        None => StatsStep::Request,
    }
}

/// The first step of a statistics fetch: statistics in the cache are the answer, marked as
/// coming from the cache, and no request is sent; only without them is one sent.
pub fn stats_step(cached: Option<ZkillStats>) -> (r: StatsStep)
    ensures
        r == stats_step_of(cached),
{
    match cached {
        Some(stats) => StatsStep::Cached(FetchResult { stats, from_cache: true }),
        None => StatsStep::Request,
    }
}

/// A second fetch within the time to live is answered from the cache: once statistics
/// `st` of pilot `id` have been cached at `now_ms` for `ttl_secs`, a fetch at `later_ms`
/// before they expire finds them and answers with them, marked as coming from the cache,
/// without a request.
pub proof fn lemma_second_fetch_from_cache(
    es: Seq<(i64, ZkillStats, i128)>,
    id: i64,
    st: ZkillStats,
    ttl_secs: u64,
    now_ms: i64,
    later_ms: i64,
)
    requires
        now_ms <= later_ms,
        (later_ms as int) < expiry(now_ms as int, ttl_secs as int),
    ensures
        stats_step_of(
            live(es.push((id, st, expiry(now_ms as int, ttl_secs as int) as i128)), id, later_ms as int),
        ) == StatsStep::Cached(FetchResult { stats: st, from_cache: true }),
{
    lemma_hit_within_ttl(es, id, st, ttl_secs, now_ms, later_ms);
}

/// A member whose key does not read as an hour below twenty-four is ignored: inserting it
/// anywhere among a day's members changes no hour's count.
pub proof fn lemma_out_of_range_hour_ignored(
    es: Seq<(String, Json)>,
    i: int,
    k: String,
    v: Json,
    h: nat,
)
    requires
        0 <= i <= es.len(),
        h < HEATMAP_HOURS,
        match parse_unsigned(k@, usize::MAX as nat) {
            Some(x) => x >= HEATMAP_HOURS,
            None => true,
        },
    ensures
        cell_of_members(es.insert(i, (k, v)), h) == cell_of_members(es, h),
    decreases es.len(),
{
    let t = es.insert(i, (k, v));
    if i == es.len() {
        assert(t.drop_last() =~= es);
    } else {
        assert(t.last() == es.last());
        assert(t.drop_last() =~= es.drop_last().insert(i, (k, v)));
        lemma_out_of_range_hour_ignored(es.drop_last(), i, k, v, h);
    }
}

/// A member whose key is not `key` is ignored when `key` is looked up: inserting it
/// anywhere among an object's members leaves the member found under `key` unchanged. With
/// `key` a day key from "0" to "6", a day member under any other key changes no count.
pub proof fn lemma_other_key_ignored(
    es: Seq<(String, Json)>,
    i: int,
    k: String,
    v: Json,
    key: Seq<char>,
)
    requires
        0 <= i <= es.len(),
        k@ != key,
    ensures
        crate::json::member(es.insert(i, (k, v)), key) == crate::json::member(es, key),
    decreases es.len(),
{
    let t = es.insert(i, (k, v));
    if i == 0 {
        assert(t.drop_first() =~= es);
    } else {
        assert(t[0] == es[0]);
        assert(t.drop_first() =~= es.drop_first().insert(i - 1, (k, v)));
        lemma_other_key_ignored(es.drop_first(), i - 1, k, v, key);
    }
}

} // verus!
