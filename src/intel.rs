use vstd::prelude::*;

use crate::model::{PilotFlags, ShipStats, ThreatLevel, ZkillStats};

verus! {

pub const FORCE_RECON: i64 = 833;

pub const COMBAT_RECON: i64 = 906;

pub const BLACK_OPS: i64 = 898;

pub const COVERT_OPS: i64 = 830;

pub const STEALTH_BOMBER: i64 = 834;

pub const BLOCKADE_RUNNER: i64 = 1202;

pub const EXPEDITION_FRIGATE: i64 = 1283;

pub const DREADNOUGHT: i64 = 485;

pub const CARRIER: i64 = 547;

pub const FORCE_AUXILIARY: i64 = 1538;

pub const CAPITAL_INDUSTRIAL: i64 = 883;

pub const SUPERCARRIER: i64 = 659;

pub const TITAN: i64 = 30;

/// A set of ship groups that reveals a capability.
#[derive(Debug, Clone, Copy, PartialEq, Eq, Structural)]
pub enum ShipCategory {
    Recon,
    BlackOps,
    CovertCyno,
    Capital,
    Super,
}

/// Whether ship group `g` belongs to category `c`.
pub open spec fn in_category(c: ShipCategory, g: i64) -> bool {
    match c {
        ShipCategory::Recon => g == FORCE_RECON || g == COMBAT_RECON,
        ShipCategory::BlackOps => g == BLACK_OPS,
        ShipCategory::CovertCyno => g == FORCE_RECON || g == BLACK_OPS || g == COVERT_OPS || g
            == STEALTH_BOMBER || g == BLOCKADE_RUNNER || g == EXPEDITION_FRIGATE,
        ShipCategory::Capital => g == DREADNOUGHT || g == CARRIER || g == FORCE_AUXILIARY || g
            == CAPITAL_INDUSTRIAL || g == SUPERCARRIER || g == TITAN,
        ShipCategory::Super => g == SUPERCARRIER || g == TITAN,
    }
}

/// Some ship of `ships` is in category `c` and has at least one kill.
pub open spec fn flies_category(ships: Seq<ShipStats>, c: ShipCategory) -> bool {
    exists|i: int| 0 <= i < ships.len() && in_category(c, (#[trigger] ships[i]).group_id) && ships[i].kills >= 1
}

/// More than ten kills, of which more than 30% solo.
pub open spec fn solo_operator(s: ZkillStats) -> bool {
    s.ships_destroyed > 10 && s.solo_kills * 10 > s.ships_destroyed * 3
}

/// The flags that statistics `z` give; all cleared without statistics.
pub open spec fn flags_of(z: Option<ZkillStats>) -> PilotFlags {
    match z {
        None => PilotFlags {
            is_cyno: false,
            is_recon: false,
            is_blops: false,
            is_capital: false,
            is_super: false,
            is_solo: false,
        },
        Some(s) => PilotFlags {
            is_cyno: flies_category(s.top_ships@, ShipCategory::CovertCyno),
            is_recon: flies_category(s.top_ships@, ShipCategory::Recon),
            is_blops: flies_category(s.top_ships@, ShipCategory::BlackOps),
            is_capital: flies_category(s.top_ships@, ShipCategory::Capital),
            is_super: flies_category(s.top_ships@, ShipCategory::Super),
            is_solo: solo_operator(s),
        },
    }
}

/// Statistics carry a signal once the pilot has destroyed or lost a ship.
pub open spec fn has_signal(s: ZkillStats) -> bool {
    !(s.ships_destroyed == 0 && s.ships_lost == 0)
}

/// The points that recent activity adds to a threat score.
pub open spec fn bonus_of(active_pvp_kills: int) -> int {
    if active_pvp_kills > 50 {
        20
    } else if active_pvp_kills > 20 {
        10
    } else {
        0
    }
}

/// The tier of a threat score, by its whole-number part.
pub open spec fn tier_of(score: int) -> ThreatLevel {
    if score >= 80 {
        ThreatLevel::Extreme
    } else if score >= 60 {
        ThreatLevel::High
    } else if score >= 40 {
        ThreatLevel::Moderate
    } else if score >= 20 {
        ThreatLevel::Low
    } else {
        ThreatLevel::Minimal
    }
}

/// The threat level of statistics `z` whose weighted score has whole-number part `score`.
pub open spec fn threat_of(z: Option<ZkillStats>, score: int) -> ThreatLevel {
    match z {
        None => ThreatLevel::Unknown,
        Some(s) => if has_signal(s) {
            tier_of(score)
        } else {
            ThreatLevel::Unknown
        },
    }
}

/// Whether ship group `g` belongs to category `c`.
pub fn group_in_category(c: ShipCategory, g: i64) -> (r: bool)
    ensures
        r == in_category(c, g),
{
    match c {
        ShipCategory::Recon => g == FORCE_RECON || g == COMBAT_RECON,
        ShipCategory::BlackOps => g == BLACK_OPS,
        ShipCategory::CovertCyno => g == FORCE_RECON || g == BLACK_OPS || g == COVERT_OPS || g
            == STEALTH_BOMBER || g == BLOCKADE_RUNNER || g == EXPEDITION_FRIGATE,
        ShipCategory::Capital => g == DREADNOUGHT || g == CARRIER || g == FORCE_AUXILIARY || g
            == CAPITAL_INDUSTRIAL || g == SUPERCARRIER || g == TITAN,
        ShipCategory::Super => g == SUPERCARRIER || g == TITAN,
    }
}

/// Whether some ship of `ships` is in category `c` and has at least one kill.
pub fn has_ship_in_category(ships: &Vec<ShipStats>, c: ShipCategory) -> (r: bool)
    ensures
        r == flies_category(ships@, c),
{
    let mut i: usize = 0;
    while i < ships.len()
        invariant
            i <= ships@.len(),
            forall|j: int|
                0 <= j < i ==> !(in_category(c, (#[trigger] ships@[j]).group_id) && ships@[j].kills
                    >= 1),
        decreases ships@.len() - i,
    {
        if group_in_category(c, ships[i].group_id) && ships[i].kills >= 1 {
            return true;
        }
        i = i + 1;
    }
    false
}

/// The capability flags of a pilot with statistics `zkill`.
pub fn detect_pilot_flags(zkill: &Option<ZkillStats>) -> (r: PilotFlags)
    ensures
        r == flags_of(*zkill),
{
    match zkill {
        None => PilotFlags::none(),
        Some(stats) => {
            let ships = &stats.top_ships;
            let solo = stats.ships_destroyed > 10 && (stats.solo_kills as i128) * 10
                > (stats.ships_destroyed as i128) * 3;
            PilotFlags {
                is_cyno: has_ship_in_category(ships, ShipCategory::CovertCyno),
                is_recon: has_ship_in_category(ships, ShipCategory::Recon),
                is_blops: has_ship_in_category(ships, ShipCategory::BlackOps),
                is_capital: has_ship_in_category(ships, ShipCategory::Capital),
                is_super: has_ship_in_category(ships, ShipCategory::Super),
                is_solo: solo,
            }
        },
    }
}

/// The points that recent activity adds to a threat score.
pub fn activity_bonus(active_pvp_kills: i64) -> (r: i64)
    ensures
        r == bonus_of(active_pvp_kills as int),
{
    if active_pvp_kills > 50 {
        20
    } else if active_pvp_kills > 20 {
        10
    } else {
        0
    }
}

/// The tier of a threat score whose whole-number part is `score`. The thresholds are
/// whole numbers, so the whole-number part decides as the exact score would.
pub fn threat_level_for_score(score: i64) -> (r: ThreatLevel)
    ensures
        r == tier_of(score as int),
{
    if score >= 80 {
        ThreatLevel::Extreme
    } else if score >= 60 {
        ThreatLevel::High
    } else if score >= 40 {
        ThreatLevel::Moderate
    } else if score >= 20 {
        ThreatLevel::Low
    } else {
        ThreatLevel::Minimal
    }
}

/// The threat level of a pilot with statistics `zkill`, whose weighted score has
/// whole-number part `score`: `Unknown` without statistics or without a kill or loss.
pub fn calculate_threat_level(zkill: &Option<ZkillStats>, score: i64) -> (r: ThreatLevel)
    ensures
        r == threat_of(*zkill, score as int),
        zkill matches Some(s) && s.ships_destroyed == 0 && s.ships_lost == 0 ==> r
            == ThreatLevel::Unknown,
{
    match zkill {
        None => ThreatLevel::Unknown,
        Some(stats) => {
            if stats.ships_destroyed == 0 && stats.ships_lost == 0 {
                ThreatLevel::Unknown
            } else {
                threat_level_for_score(score)
            }
        },
    }
}

} // verus!
