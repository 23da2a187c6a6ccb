use telescope::cache::TtlCache;
use telescope::esi::{
    assemble_character, decode_affiliation, decode_character, decode_ids, parse_expires_to_secs,
    profile_ttl, ttl_until,
};
use telescope::intel::{
    activity_bonus, calculate_threat_level, detect_pilot_flags, threat_level_for_score,
};
use telescope::json::Json;
use telescope::lookup::{
    failed_pilot, fetched_pilot, parse_names, pilot_after_profile, pilot_from_cache,
    sort_by_threat, unresolved_pilot, LookupSession,
};
use telescope::model::{CharacterInfo, PilotIntel, ShipStats, ThreatLevel, ZkillStats};
use telescope::text::{parse_u64, split_char, trim, whole_of_decimal};
use telescope::version::{is_newer_version, strip_v, update_from_release};
use telescope::zkill::{
    parse_activity, parse_max_age_secs, parse_top_ships, parse_zkill_response,
    stats_from_response, stats_step, StatsStep,
};

fn stats(destroyed: i64, lost: i64) -> ZkillStats {
    let mut s = ZkillStats::empty();
    s.ships_destroyed = destroyed;
    s.ships_lost = lost;
    s
}

/// The weighted threat score, as the interface computes it.
fn score_of(s: &ZkillStats) -> i64 {
    let d = s.ships_destroyed as f64;
    let mut score = d.log10().max(0.0) * 10.0;
    score += s.solo_kills as f64 * 0.5;
    score += s.danger_ratio as f64 * 0.3;
    score -= s.gang_ratio as f64 * 0.1;
    let kd = if s.ships_lost > 0 { d / s.ships_lost as f64 } else { d };
    score += kd.min(10.0) * 5.0;
    score += activity_bonus(s.active_pvp_kills) as f64;
    score.floor() as i64
}

fn character(id: i64, name: &str) -> CharacterInfo {
    CharacterInfo {
        id,
        name: name.to_string(),
        corporation_id: None,
        corporation_name: None,
        corporation_ticker: None,
        alliance_id: None,
        alliance_name: None,
        alliance_ticker: None,
    }
}

fn pilot(name: &str, level: ThreatLevel) -> PilotIntel {
    let mut p = fetched_pilot(character(1, name), None, 0);
    p.threat_level = level;
    p
}

fn ship(group_id: i64, kills: i64) -> ShipStats {
    ShipStats {
        ship_type_id: 1,
        ship_name: "s".to_string(),
        group_id,
        group_name: "g".to_string(),
        kills,
        losses: 0,
    }
}

fn obj(members: Vec<(&str, Json)>) -> Json {
    Json::Object(members.into_iter().map(|(k, v)| (k.to_string(), v)).collect())
}

fn num(n: i64) -> Json {
    Json::Number(Some(n), n.to_string())
}

#[test]
fn threat_boundary_hundred_kills_one_loss_is_high() {
    let s = stats(100, 1);
    let score = score_of(&s);
    assert_eq!(score, 70);
    assert_eq!(calculate_threat_level(&Some(s), score), ThreatLevel::High);
}

#[test]
fn no_kills_no_losses_is_unknown() {
    let mut s = stats(0, 0);
    s.solo_kills = 500;
    s.danger_ratio = 100;
    s.active_pvp_kills = 90;
    assert_eq!(calculate_threat_level(&Some(s), 95), ThreatLevel::Unknown);
    assert_eq!(calculate_threat_level(&None, 95), ThreatLevel::Unknown);
}

#[test]
fn score_thresholds() {
    assert_eq!(threat_level_for_score(80), ThreatLevel::Extreme);
    assert_eq!(threat_level_for_score(79), ThreatLevel::High);
    assert_eq!(threat_level_for_score(60), ThreatLevel::High);
    assert_eq!(threat_level_for_score(59), ThreatLevel::Moderate);
    assert_eq!(threat_level_for_score(40), ThreatLevel::Moderate);
    assert_eq!(threat_level_for_score(20), ThreatLevel::Low);
    assert_eq!(threat_level_for_score(19), ThreatLevel::Minimal);
    assert_eq!(threat_level_for_score(-5), ThreatLevel::Minimal);
    assert_eq!(activity_bonus(51), 20);
    assert_eq!(activity_bonus(50), 10);
    assert_eq!(activity_bonus(21), 10);
    assert_eq!(activity_bonus(20), 0);
}

#[test]
fn extreme_pilot() {
    let mut s = stats(1000, 10);
    s.solo_kills = 40;
    s.active_pvp_kills = 60;
    let score = score_of(&s);
    assert_eq!(score, 30 + 20 + 50 + 20);
    assert_eq!(calculate_threat_level(&Some(s), score), ThreatLevel::Extreme);
}

#[test]
fn unresolved_name_gets_placeholder() {
    let p = unresolved_pilot("Nobody Here".to_string());
    assert_eq!(p.character.id, 0);
    assert_eq!(p.character.name, "Nobody Here");
    assert!(p.character.corporation_name.is_none());
    assert!(p.zkill.is_none());
    assert_eq!(p.threat_level, ThreatLevel::Unknown);
    assert_eq!(p.error.as_deref(), Some("Character not found"));
    let f = failed_pilot(7, "Bob".to_string(), "Character not found: 7".to_string());
    assert_eq!(f.character.id, 7);
    assert_eq!(f.error.as_deref(), Some("Character not found: 7"));
    assert_eq!(f.threat_level.label(), "UNKNOWN");
}

#[test]
fn sort_orders_by_tier_and_keeps_ties() {
    let v = vec![
        pilot("a", ThreatLevel::Unknown),
        pilot("b", ThreatLevel::Low),
        pilot("c", ThreatLevel::Extreme),
        pilot("d", ThreatLevel::Low),
        pilot("e", ThreatLevel::Minimal),
        pilot("f", ThreatLevel::High),
        pilot("g", ThreatLevel::Moderate),
        pilot("h", ThreatLevel::Extreme),
    ];
    let sorted = sort_by_threat(v);
    let names: Vec<&str> = sorted.iter().map(|p| p.character.name.as_str()).collect();
    assert_eq!(names, vec!["c", "h", "f", "g", "b", "d", "e", "a"]);
}

#[test]
fn session_yields_one_record_per_name() {
    let names = parse_names("Alice\n  Bob  \n\n\r\nCarol\r\n");
    assert_eq!(names, vec!["Alice", "Bob", "Carol"]);
    let mut session = LookupSession::new(names.len());
    assert!(session.awaits(0) && session.awaits(2) && !session.awaits(3));
    let first = session.record(0, pilot("Alice", ThreatLevel::Low), true);
    assert!(!session.awaits(0));
    assert_eq!((first.current, first.total, first.cache_hits), (1, 3, 1));
    assert!(!session.is_complete());
    let second = session.record(2, unresolved_pilot("Bob".to_string()), false);
    assert_eq!((second.current, second.total, second.cache_hits), (2, 3, 1));
    let third = session.record(1, pilot("Carol", ThreatLevel::High), false);
    assert_eq!((third.current, third.total, third.cache_hits), (3, 3, 1));
    assert!(session.is_complete());
    assert!(session.arrived.iter().all(|a| *a));
    let out = session.finish();
    assert_eq!(out.len(), 3);
    assert_eq!(out[0].character.name, "Carol");
    assert_eq!(out[2].character.name, "Bob");
}

#[test]
fn empty_input_has_no_names() {
    assert!(parse_names("").is_empty());
    assert!(parse_names("  \n\t\n").is_empty());
    assert_eq!(trim("\u{3000} x y \u{a0}"), "x y");
    assert_eq!(split_char("a,,b", ','), vec!["a", "", "b"]);
}

#[test]
fn heatmap_is_seven_by_twenty_four() {
    let body = r#"{"activity":{"max":9,"0":{"0":3,"23":4,"24":99,"x":1},"6":{"+5":2},"7":{"1":8},"9":{"2":5}}}"#;
    let out = stats_from_response(true, None, body).unwrap();
    let m = out.result.stats.activity.unwrap();
    assert_eq!(m.max, 9);
    assert_eq!(m.data.len(), 7);
    assert!(m.data.iter().all(|row| row.len() == 24));
    assert_eq!(m.data[0][0], 3);
    assert_eq!(m.data[0][23], 4);
    assert_eq!(m.data[6][5], 2);
    let total: i64 = m.data.iter().flatten().sum();
    assert_eq!(total, 9);
}

#[test]
fn heatmap_default_max_and_absent() {
    let a = obj(vec![("activity", obj(vec![]))]);
    let m = parse_activity(&a).unwrap();
    assert_eq!(m.max, 1);
    assert_eq!(m.data.len(), 7);
    assert!(m.data.iter().all(|row| row.len() == 24 && row.iter().all(|c| *c == 0)));
    assert!(parse_activity(&obj(vec![])).is_none());
}

#[test]
fn activity_document_parses() {
    let body = r#"{"shipsDestroyed":120,"shipsLost":8,"iskDestroyed":5000,"soloKills":40,
        "dangerRatio":80,"gangRatio":20,"pointsDestroyed":300,
        "activepvp":{"kills":{"count":25}},
        "topLists":[
          {"type":"shipType","values":[
             {"shipTypeID":0,"shipName":"Capsule"},
             {"shipTypeID":11,"shipName":"A","groupID":833,"groupName":"Force Recon","kills":3},
             {"shipTypeID":12,"kills":1},
             {"shipTypeID":13},{"shipTypeID":14},{"shipTypeID":15}]},
          {"type":"solarSystem","values":[{"solarSystemID":30000142,"solarSystemName":"Jita","kills":7},
             {"solarSystemID":-1}]}]}"#;
    let out = stats_from_response(true, Some("public, max-age=120"), body).unwrap();
    assert!(!out.result.from_cache);
    assert_eq!(out.cache_ttl, Some(120));
    let s = &out.result.stats;
    assert_eq!(s.ships_destroyed, 120);
    assert_eq!(s.ships_lost, 8);
    assert_eq!(s.isk_destroyed, 5000);
    assert_eq!(s.isk_lost, 0);
    assert_eq!(s.solo_kills, 40);
    assert_eq!(s.danger_ratio, 80);
    assert_eq!(s.gang_ratio, 20);
    assert_eq!(s.points_destroyed, 300);
    assert_eq!(s.active_pvp_kills, 25);
    let ids: Vec<i64> = s.top_ships.iter().map(|x| x.ship_type_id).collect();
    assert_eq!(ids, vec![11, 12, 13, 14]);
    assert_eq!(s.top_ships[1].ship_name, "Unknown");
    assert_eq!(s.top_ships[0].group_name, "Force Recon");
    assert_eq!(s.top_systems.len(), 1);
    assert_eq!(s.top_systems[0].system_name, "Jita");
    assert!(s.activity.is_none());
    let flags = detect_pilot_flags(&Some(s.clone()));
    assert!(flags.is_recon && flags.is_cyno && flags.is_solo);
    assert!(!flags.is_blops && !flags.is_capital && !flags.is_super);
}

#[test]
fn top_ships_without_lists() {
    assert!(parse_top_ships(&obj(vec![("topLists", num(3))])).is_empty());
    let s = parse_zkill_response(&Json::Null);
    assert_eq!(s.ships_destroyed, 0);
    assert!(s.top_ships.is_empty() && s.top_systems.is_empty() && s.activity.is_none());
}

#[test]
fn stats_response_outcomes() {
    let failed = stats_from_response(false, Some("max-age=60"), "{}").unwrap();
    assert_eq!(failed.cache_ttl, None);
    assert_eq!(failed.result.stats.ships_destroyed, 0);
    let empty = stats_from_response(true, Some("max-age=60"), "[]").unwrap();
    assert_eq!(empty.cache_ttl, Some(300));
    let blank = stats_from_response(true, None, "").unwrap();
    assert_eq!(blank.cache_ttl, Some(300));
    let plain = stats_from_response(true, None, r#"{"shipsLost":2}"#).unwrap();
    assert_eq!(plain.cache_ttl, Some(3600));
    assert_eq!(plain.result.stats.ships_lost, 2);
    assert!(stats_from_response(true, None, "{not json").is_err());
}

#[test]
fn second_fetch_comes_from_cache() {
    let out = stats_from_response(true, None, r#"{"shipsDestroyed":5,"shipsLost":1}"#).unwrap();
    assert!(out.cache_ttl.is_some());
    let StatsStep::Cached(hit) = stats_step(Some(out.result.stats.clone())) else {
        panic!("cached statistics must answer the fetch");
    };
    assert!(hit.from_cache);
    assert!(matches!(stats_step(None), StatsStep::Request));
    assert_eq!(hit.stats.ships_destroyed, 5);
    assert_eq!(hit.stats.ships_lost, 1);
    let c = character(9, "Zed");
    let first = fetched_pilot(c.clone(), Some(hit.stats.clone()), 12);
    let again = pilot_from_cache(Some(c), Some(hit.stats), 12).unwrap();
    assert_eq!(first.threat_level, again.threat_level);
    assert_eq!(first.flags, again.flags);
    assert_eq!(first.character.name, again.character.name);
    assert!(pilot_from_cache(None, Some(stats(1, 1)), 0).is_none());
}

#[test]
fn max_age_header() {
    assert_eq!(parse_max_age_secs(Some("public, max-age=3600")), Some(3600));
    assert_eq!(parse_max_age_secs(Some("max-age=+7, no-cache")), Some(7));
    assert_eq!(parse_max_age_secs(Some("no-cache")), None);
    assert_eq!(parse_max_age_secs(Some("max-age=abc, max-age=5")), None);
    assert_eq!(parse_max_age_secs(None), None);
    assert_eq!(parse_u64("18446744073709551615"), Some(u64::MAX));
    assert_eq!(parse_u64("18446744073709551616"), None);
    assert_eq!(parse_u64("+"), None);
}

#[test]
fn version_comparison() {
    assert!(is_newer_version("1.2.0", "1.1.9"));
    assert!(!is_newer_version("1.2.0", "1.2"));
    assert!(is_newer_version("1.2.1", "1.2"));
    assert!(!is_newer_version("1.0.0", "1.0.1"));
    assert!(is_newer_version("2.x.1", "2.0"));
    assert!(!is_newer_version("", ""));
    assert_eq!(strip_v("vv1.0"), "1.0");
}

#[test]
fn release_check() {
    let body = r#"{"tag_name":"v0.3.0","html_url":"https://example.org/r","body":"notes"}"#;
    let u = update_from_release("0.2.5", body).unwrap().unwrap();
    assert_eq!(u.latest_version, "0.3.0");
    assert_eq!(u.current_version, "0.2.5");
    assert_eq!(u.release_url, "https://example.org/r");
    assert_eq!(u.release_notes, "notes");
    assert!(update_from_release("0.3.0", body).unwrap().is_none());
    assert!(update_from_release("0.3.0", "<html>").is_err());
}

#[test]
fn solo_and_capital_flags() {
    let mut s = stats(11, 0);
    s.solo_kills = 4;
    s.top_ships = vec![ship(30, 1), ship(898, 0)];
    let f = detect_pilot_flags(&Some(s.clone()));
    assert!(f.is_solo && f.is_capital && f.is_super);
    assert!(!f.is_blops && !f.is_cyno && !f.is_recon);
    s.solo_kills = 3;
    s.ships_destroyed = 10;
    assert!(!detect_pilot_flags(&Some(s)).is_solo);
    let none = detect_pilot_flags(&None);
    assert!(!none.is_cyno && !none.is_solo);
}

#[test]
fn id_resolution_ignores_case() {
    let body = r#"{"characters":[{"id":11,"name":"Alice Alpha"},{"id":12,"name":"BOB"},{"name":"No Id"}]}"#;
    let m = decode_ids(body).unwrap();
    assert_eq!(m.get("alice alpha"), Some(11));
    assert_eq!(m.get("ALICE ALPHA"), Some(11));
    assert_eq!(m.get("Bob"), Some(12));
    assert_eq!(m.get("Carol"), None);
    assert_eq!(m.get("No Id"), None);
    let none = decode_ids("{}").unwrap();
    assert_eq!(none.get("x"), None);
    assert!(decode_ids("nope").is_err());
}

#[test]
fn profile_decoding() {
    let e = decode_character(r#"{"name":"Alice","corporation_id":98,"alliance_id":99}"#).unwrap();
    assert_eq!((e.name.as_str(), e.corporation_id, e.alliance_id), ("Alice", 98, Some(99)));
    assert!(decode_character(r#"{"name":"Alice"}"#).is_err());
    let corp = decode_affiliation(r#"{"name":"Corp","ticker":"CRP"}"#);
    assert_eq!(corp, Some(("Corp".to_string(), "CRP".to_string())));
    assert_eq!(decode_affiliation(r#"{"name":"Corp"}"#), None);
    let info = assemble_character(5, e, corp, None);
    assert_eq!(info.id, 5);
    assert_eq!(info.corporation_id, Some(98));
    assert_eq!(info.corporation_ticker.as_deref(), Some("CRP"));
    assert_eq!(info.alliance_id, Some(99));
    assert!(info.alliance_name.is_none());
}

#[test]
fn profile_expiry() {
    let h = "Wed, 21 Oct 2015 07:28:00 GMT";
    let at = 1445412480_i64 * 1000;
    assert_eq!(parse_expires_to_secs(Some(h), at - 90_500), Some(90));
    assert_eq!(parse_expires_to_secs(Some(h), at), Some(0));
    assert_eq!(parse_expires_to_secs(Some(h), at + 5_000), Some(0));
    assert_eq!(parse_expires_to_secs(Some("garbage"), 0), None);
    assert_eq!(parse_expires_to_secs(None, 0), None);
    assert_eq!(ttl_until(10, 9_001), 0);
    assert_eq!(ttl_until(10, 8_999), 1);
    assert_eq!(profile_ttl(Some(h), at - 7_200_000), 7200);
    assert_eq!(profile_ttl(Some(h), at + 1), 0);
    assert_eq!(profile_ttl(Some("not a date"), at), 3600);
    assert_eq!(profile_ttl(None, at), 3600);
}

#[test]
fn cache_hit_until_expiry() {
    let mut c: TtlCache<i64> = TtlCache::new();
    assert_eq!(c.get(7, 0), None);
    c.set(7, 42, 300, 1_000);
    assert_eq!(c.get(7, 1_000), Some(&42));
    assert_eq!(c.get(7, 300_999), Some(&42));
    assert_eq!(c.get(7, 301_000), None);
    assert_eq!(c.get(8, 1_000), None);
    c.set(7, 43, 0, 2_000);
    assert_eq!(c.get(7, 2_000), None);
    c.set(7, 44, 10, 2_000);
    assert_eq!(c.get(7, 2_500), Some(&44));
    c.clear();
    assert_eq!(c.get(7, 2_500), None);
}

#[test]
fn profile_failure_short_circuits() {
    let p = pilot_after_profile(
        42,
        "Dana".to_string(),
        Err("Character not found: 42".to_string()),
        Some(stats(500, 1)),
        99,
    );
    assert_eq!(p.character.id, 42);
    assert_eq!(p.character.name, "Dana");
    assert!(p.zkill.is_none());
    assert_eq!(p.threat_level, ThreatLevel::Unknown);
    assert_eq!(p.error.as_deref(), Some("Character not found: 42"));
    let ok = pilot_after_profile(42, "Dana".to_string(), Ok(character(42, "Dana")), Some(stats(500, 1)), 99);
    assert_eq!(ok.threat_level, ThreatLevel::Extreme);
    assert!(ok.error.is_none());
    assert_eq!(ok.zkill.map(|z| z.ships_destroyed), Some(500));
}

#[test]
fn fractional_values_keep_whole_part() {
    let body = r#"{"iskDestroyed":1234567.89,"iskLost":-2.5,"dangerRatio":45.7,"gangRatio":54,
        "shipsDestroyed":3.9}"#;
    let s = stats_from_response(true, None, body).unwrap().result.stats;
    assert_eq!(s.isk_destroyed, 1234567);
    assert_eq!(s.isk_lost, -2);
    assert_eq!(s.danger_ratio, 45);
    assert_eq!(s.gang_ratio, 54);
    assert_eq!(s.ships_destroyed, 0);
}

#[test]
fn decimal_whole_parts() {
    assert_eq!(whole_of_decimal("45.7"), Some(45));
    assert_eq!(whole_of_decimal("-0.5"), Some(0));
    assert_eq!(whole_of_decimal("-9223372036854775808.25"), Some(i64::MIN));
    assert_eq!(whole_of_decimal("9223372036854775808.0"), None);
    assert_eq!(whole_of_decimal("12"), Some(12));
    assert_eq!(whole_of_decimal("1e20"), None);
    assert_eq!(whole_of_decimal("5."), None);
    assert_eq!(whole_of_decimal(".5"), None);
    assert_eq!(whole_of_decimal("+5"), None);
    assert_eq!(whole_of_decimal(""), None);
}
