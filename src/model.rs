use vstd::prelude::*;

verus! {

/// A pilot's public identity and its two levels of affiliation.
#[derive(Debug, Clone)]
pub struct CharacterInfo {
    pub id: i64,
    pub name: String,
    pub corporation_id: Option<i64>,
    pub corporation_name: Option<String>,
    pub corporation_ticker: Option<String>,
    pub alliance_id: Option<i64>,
    pub alliance_name: Option<String>,
    pub alliance_ticker: Option<String>,
}

/// One of the ship types a pilot flies most.
#[derive(Debug, Clone)]
pub struct ShipStats {
    pub ship_type_id: i64,
    pub ship_name: String,
    pub group_id: i64,
    pub group_name: String,
    pub kills: i64,
    pub losses: i64,
}

/// Kills by day of week (rows) and hour of day (columns), with the largest count
/// for normalisation.
#[derive(Debug, Clone)]
pub struct ActivityHeatmap {
    pub max: i64,
    pub data: Vec<Vec<i64>>,
}

/// One of the solar systems a pilot is most active in.
#[derive(Debug, Clone)]
pub struct SystemStats {
    pub system_id: i64,
    pub system_name: String,
    pub kills: i64,
}

/// Aggregated activity statistics of one pilot. ISK values and the danger and gang ratios
/// hold the whole part of what the activity source reports.
#[derive(Debug, Clone)]
pub struct ZkillStats {
    pub ships_destroyed: i64,
    pub ships_lost: i64,
    pub isk_destroyed: i64,
    pub isk_lost: i64,
    pub solo_kills: i64,
    pub solo_losses: i64,
    pub danger_ratio: i64,
    pub gang_ratio: i64,
    pub points_destroyed: i64,
    pub active_pvp_kills: i64,
    pub top_ships: Vec<ShipStats>,
    pub activity: Option<ActivityHeatmap>,
    pub top_systems: Vec<SystemStats>,
}

impl ZkillStats {
    /// Every counter zero, no lists, no heatmap.
    pub open spec fn is_empty_stats(&self) -> bool {
        &&& self.ships_destroyed == 0
        &&& self.ships_lost == 0
        &&& self.isk_destroyed == 0
        &&& self.isk_lost == 0
        &&& self.solo_kills == 0
        &&& self.solo_losses == 0
        &&& self.danger_ratio == 0
        &&& self.gang_ratio == 0
        &&& self.points_destroyed == 0
        &&& self.active_pvp_kills == 0
        &&& self.top_ships@.len() == 0
        &&& self.activity is None
        &&& self.top_systems@.len() == 0
    }

    /// The statistics of a pilot with no recorded activity.
    pub fn empty() -> (r: ZkillStats)
        ensures
            r.is_empty_stats(),
    {
        ZkillStats {
            ships_destroyed: 0,
            ships_lost: 0,
            isk_destroyed: 0,
            isk_lost: 0,
            solo_kills: 0,
            solo_losses: 0,
            danger_ratio: 0,
            gang_ratio: 0,
            points_destroyed: 0,
            active_pvp_kills: 0,
            top_ships: Vec::new(),
            activity: None,
            top_systems: Vec::new(),
        }
    }
}

/// Capability indicators derived from the ships a pilot flies.
#[derive(Debug, Clone, Copy, PartialEq, Eq, Structural)]
pub struct PilotFlags {
    pub is_cyno: bool,
    pub is_recon: bool,
    pub is_blops: bool,
    pub is_capital: bool,
    pub is_super: bool,
    pub is_solo: bool,
}

impl PilotFlags {
    /// All flags cleared.
    pub fn none() -> (r: PilotFlags)
        ensures
            !r.is_cyno && !r.is_recon && !r.is_blops && !r.is_capital && !r.is_super && !r.is_solo,
    {
        PilotFlags {
            is_cyno: false,
            is_recon: false,
            is_blops: false,
            is_capital: false,
            is_super: false,
            is_solo: false,
        }
    }
}

/// How dangerous a pilot is, from `Extreme` down to `Minimal`; `Unknown` without data.
#[derive(Debug, Clone, Copy, PartialEq, Eq, Structural)]
pub enum ThreatLevel {
    Extreme,
    High,
    Moderate,
    Low,
    Minimal,
    Unknown,
}

/// The position of a threat level in the order of the final result list.
pub open spec fn rank_of(t: ThreatLevel) -> nat {
    match t {
        ThreatLevel::Extreme => 0,
        ThreatLevel::High => 1,
        ThreatLevel::Moderate => 2,
        ThreatLevel::Low => 3,
        ThreatLevel::Minimal => 4,
        ThreatLevel::Unknown => 5,
    }
}

pub open spec fn label_of(t: ThreatLevel) -> Seq<char> {
    match t {
        ThreatLevel::Extreme => seq!['E', 'X', 'T', 'R', 'E', 'M', 'E'],
        ThreatLevel::High => seq!['H', 'I', 'G', 'H'],
        ThreatLevel::Moderate => seq!['M', 'O', 'D', 'E', 'R', 'A', 'T', 'E'],
        ThreatLevel::Low => seq!['L', 'O', 'W'],
        ThreatLevel::Minimal => seq!['M', 'I', 'N', 'I', 'M', 'A', 'L'],
        ThreatLevel::Unknown => seq!['U', 'N', 'K', 'N', 'O', 'W', 'N'],
    }
}

impl ThreatLevel {
    /// The position of this level in the order of the final result list.
    pub fn rank(&self) -> (r: u8)
        ensures
            r as nat == rank_of(*self),
    {
        match self {
            ThreatLevel::Extreme => 0,
            ThreatLevel::High => 1,
            ThreatLevel::Moderate => 2,
            ThreatLevel::Low => 3,
            ThreatLevel::Minimal => 4,
            ThreatLevel::Unknown => 5,
        }
    }

    /// The level's name in capitals, as the user interface shows it.
    pub fn label(&self) -> (r: String)
        ensures
            r@ == label_of(*self),
    {
        let s = match self {
            ThreatLevel::Extreme => "EXTREME",
            ThreatLevel::High => "HIGH",
            ThreatLevel::Moderate => "MODERATE",
            ThreatLevel::Low => "LOW",
            ThreatLevel::Minimal => "MINIMAL",
            ThreatLevel::Unknown => "UNKNOWN",
        };
        proof {
            reveal_strlit("EXTREME");
            reveal_strlit("HIGH");
            reveal_strlit("MODERATE");
            reveal_strlit("LOW");
            reveal_strlit("MINIMAL");
            reveal_strlit("UNKNOWN");
        }
        let r = String::from_str(s);
        assert(r@ =~= label_of(*self));
        r
    }
}

/// Everything known of one looked-up pilot. Either the profile is real and `error` is
/// `None`, or the profile is a placeholder and `error` says why.
#[derive(Debug, Clone)]
pub struct PilotIntel {
    pub character: CharacterInfo,
    pub zkill: Option<ZkillStats>,
    pub threat_level: ThreatLevel,
    pub flags: PilotFlags,
    pub error: Option<String>,
}

/// How far a lookup has come.
#[derive(Debug, Clone, Copy, PartialEq, Eq, Structural)]
pub struct LookupProgress {
    pub current: usize,
    pub total: usize,
    pub cache_hits: usize,
}

/// One pilot's record, with the position of its name in the request.
#[derive(Debug, Clone)]
pub struct PilotResult {
    pub pilot: PilotIntel,
    pub index: usize,
}

/// A newer release than the running one.
#[derive(Debug, Clone)]
pub struct UpdateInfo {
    pub current_version: String,
    pub latest_version: String,
    pub release_url: String,
    pub release_notes: String,
}

/// Activity statistics, and whether they came from the cache.
#[derive(Debug, Clone)]
pub struct FetchResult {
    pub stats: ZkillStats,
    pub from_cache: bool,
}

} // verus!
