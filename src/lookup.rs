use vstd::multiset::Multiset;
use vstd::prelude::*;

use crate::cache::{expiry, lemma_hit_within_ttl, live};
use crate::intel::{calculate_threat_level, detect_pilot_flags, flags_of, threat_of};
use crate::model::{
    rank_of, CharacterInfo, LookupProgress, PilotFlags, PilotIntel, ThreatLevel, ZkillStats,
};
use crate::text::{split_char, split_on, trim, trimmed};

verus! {

/// The non-empty trimmed pieces of `pieces`, in order.
pub open spec fn nonempty_trimmed(pieces: Seq<Seq<char>>) -> Seq<Seq<char>>
    decreases pieces.len(),
{
    if pieces.len() == 0 {
        Seq::empty()
    } else {
        let rest = nonempty_trimmed(pieces.drop_last());
        let t = trimmed(pieces.last());
        if t.len() > 0 {
            rest.push(t)
        } else {
            rest
        }
    }
}

/// The pilot names in a block of text: one per line, trimmed, blank lines left out.
pub open spec fn names_in(text: Seq<char>) -> Seq<Seq<char>> {
    nonempty_trimmed(split_on(text, '\n'))
}

/// The records of `s` whose threat level has rank `k`, in their order in `s`.
pub open spec fn of_rank(s: Seq<PilotIntel>, k: nat) -> Seq<PilotIntel>
    decreases s.len(),
{
    if s.len() == 0 {
        Seq::empty()
    } else {
        let rest = of_rank(s.drop_last(), k);
        if rank_of(s.last().threat_level) == k {
            rest.push(s.last())
        } else {
            rest
        }
    }
}

/// The records of `s` whose rank is at most `k`: those of rank 0 first, then rank 1, and
/// so on, each group in its order in `s`.
pub open spec fn up_to_rank(s: Seq<PilotIntel>, k: nat) -> Seq<PilotIntel>
    decreases k,
{
    if k == 0 {
        of_rank(s, 0)
    } else {
        up_to_rank(s, (k - 1) as nat) + of_rank(s, k)
    }
}

/// `s` ordered by threat level, most dangerous first; records of one level keep their order.
pub open spec fn by_threat(s: Seq<PilotIntel>) -> Seq<PilotIntel> {
    up_to_rank(s, 5)
}

/// The profile of a pilot about whom nothing could be fetched.
pub open spec fn is_placeholder(c: CharacterInfo, id: i64, name: Seq<char>) -> bool {
    &&& c.id == id
    &&& c.name@ == name
    &&& c.corporation_id is None
    &&& c.corporation_name is None
    &&& c.corporation_ticker is None
    &&& c.alliance_id is None
    &&& c.alliance_name is None
    &&& c.alliance_ticker is None
}

/// A record for a pilot whose lookup failed with `error`, which is never empty.
pub open spec fn is_failure_record(p: PilotIntel, id: i64, name: Seq<char>, error: Seq<char>) -> bool {
    &&& is_placeholder(p.character, id, name)
    &&& p.zkill is None
    &&& p.threat_level == ThreatLevel::Unknown
    &&& p.flags == flags_of(None)
    &&& p.error matches Some(e) && e@ == error
    &&& error.len() > 0
}

pub open spec fn not_found_message() -> Seq<char> {
    seq!['C', 'h', 'a', 'r', 'a', 'c', 't', 'e', 'r', ' ', 'n', 'o', 't', ' ', 'f', 'o', 'u', 'n', 'd']
}

proof fn lemma_of_rank_ranks(s: Seq<PilotIntel>, k: nat)
    ensures
        forall|i: int| 0 <= i < of_rank(s, k).len() ==> rank_of(#[trigger] of_rank(s, k)[i].threat_level) == k,
    decreases s.len(),
{
    if s.len() > 0 {
        lemma_of_rank_ranks(s.drop_last(), k);
    }
}

proof fn lemma_up_to_rank_sorted(s: Seq<PilotIntel>, k: nat)
    ensures
        forall|i: int| 0 <= i < up_to_rank(s, k).len() ==> rank_of(#[trigger] up_to_rank(s, k)[i].threat_level) <= k,
        forall|i: int, j: int|
            0 <= i < j < up_to_rank(s, k).len() ==> rank_of(#[trigger] up_to_rank(s, k)[i].threat_level)
                <= rank_of(#[trigger] up_to_rank(s, k)[j].threat_level),
    decreases k,
{
    lemma_of_rank_ranks(s, k);
    if k > 0 {
        lemma_up_to_rank_sorted(s, (k - 1) as nat);
        let a = up_to_rank(s, (k - 1) as nat);
        let b = of_rank(s, k);
        assert forall|i: int| 0 <= i < (a + b).len() implies rank_of(#[trigger] (a + b)[i].threat_level) <= k by {
            if i >= a.len() {
                assert((a + b)[i] == b[i - a.len()]);
            }
        }
        assert forall|i: int, j: int|
            0 <= i < j < (a + b).len() implies rank_of(#[trigger] (a + b)[i].threat_level)
                <= rank_of(#[trigger] (a + b)[j].threat_level) by {
            if j >= a.len() {
                assert((a + b)[j] == b[j - a.len()]);
                if i >= a.len() {
                    assert((a + b)[i] == b[i - a.len()]);
                }
            }
        }
    }
}

proof fn lemma_of_rank_len(s: Seq<PilotIntel>)
    ensures
        up_to_rank(s, 5).len() == s.len(),
    decreases s.len(),
{
    reveal_with_fuel(up_to_rank, 6);
    if s.len() > 0 {
        lemma_of_rank_len(s.drop_last());
    }
}

/// The records of each rank, gathered together.
pub open spec fn rank_multisets(s: Seq<PilotIntel>) -> Multiset<PilotIntel> {
    of_rank(s, 0).to_multiset().add(of_rank(s, 1).to_multiset()).add(
        of_rank(s, 2).to_multiset(),
    ).add(of_rank(s, 3).to_multiset()).add(of_rank(s, 4).to_multiset()).add(
        of_rank(s, 5).to_multiset(),
    )
}

proof fn lemma_rank_multisets(s: Seq<PilotIntel>)
    ensures
        rank_multisets(s) == s.to_multiset(),
    decreases s.len(),
{
    broadcast use vstd::seq_lib::group_to_multiset_ensures;
    broadcast use vstd::multiset::group_multiset_axioms;

    if s.len() == 0 {
        assert(rank_multisets(s) =~= s.to_multiset());
    } else {
        let t = s.drop_last();
        let x = s.last();
        lemma_rank_multisets(t);
        assert(s =~= t.push(x));
        assert(rank_multisets(s) =~= rank_multisets(t).insert(x));
    }
}

/// Ordering by threat level neither loses nor repeats a record: the result holds the same
/// records as the input, each as often.
pub proof fn lemma_by_threat_permutes(s: Seq<PilotIntel>)
    ensures
        by_threat(s).to_multiset() == s.to_multiset(),
{
    reveal_with_fuel(up_to_rank, 6);
    vstd::seq_lib::lemma_multiset_commutative(of_rank(s, 0), of_rank(s, 1));
    vstd::seq_lib::lemma_multiset_commutative(up_to_rank(s, 1), of_rank(s, 2));
    vstd::seq_lib::lemma_multiset_commutative(up_to_rank(s, 2), of_rank(s, 3));
    vstd::seq_lib::lemma_multiset_commutative(up_to_rank(s, 3), of_rank(s, 4));
    vstd::seq_lib::lemma_multiset_commutative(up_to_rank(s, 4), of_rank(s, 5));
    lemma_rank_multisets(s);
}

/// Ordering by threat level keeps every record: the result is exactly as long as the input.
pub proof fn lemma_by_threat_keeps_all(s: Seq<PilotIntel>)
    ensures
        by_threat(s).len() == s.len(),
{
    lemma_of_rank_len(s);
}

/// The ordered list never places a record before one of a more dangerous level.
pub proof fn lemma_by_threat_sorted(s: Seq<PilotIntel>)
    ensures
        forall|i: int, j: int|
            0 <= i < j < by_threat(s).len() ==> rank_of(#[trigger] by_threat(s)[i].threat_level)
                <= rank_of(#[trigger] by_threat(s)[j].threat_level),
{
    lemma_up_to_rank_sorted(s, 5);
}

/// The pilot names in `text`: one per line, trimmed, blank lines left out.
pub fn parse_names(text: &str) -> (r: Vec<String>)
    ensures
        r@.len() == names_in(text@).len(),
        forall|k: int| 0 <= k < r@.len() ==> (#[trigger] r@[k])@ == names_in(text@)[k],
{
    let pieces = split_char(text, '\n');
    let ghost all = split_on(text@, '\n');
    let mut names: Vec<String> = Vec::new();
    let mut k: usize = 0;
    while k < pieces.len()
        invariant
            k <= pieces@.len(),
            pieces@.len() == all.len(),
            all == split_on(text@, '\n'),
            forall|j: int| 0 <= j < pieces@.len() ==> (#[trigger] pieces@[j])@ == all[j],
            names@.len() == nonempty_trimmed(all.subrange(0, k as int)).len(),
            forall|j: int|
                0 <= j < names@.len() ==> (#[trigger] names@[j])@ == nonempty_trimmed(
                    all.subrange(0, k as int),
                )[j],
        decreases pieces@.len() - k,
    {
        assert(all.subrange(0, k + 1).drop_last() =~= all.subrange(0, k as int));
        let t = trim(pieces[k]);
        if t.unicode_len() > 0 {
            names.push(String::from_str(t));
        }
        k = k + 1;
    }
    assert(all.subrange(0, k as int) =~= all);
    names
}

/// A profile with only an id and a name.
pub fn placeholder_character(id: i64, name: String) -> (r: CharacterInfo)
    ensures
        is_placeholder(r, id, name@),
{
    CharacterInfo {
        id,
        name,
        corporation_id: None,
        corporation_name: None,
        corporation_ticker: None,
        alliance_id: None,
        alliance_name: None,
        alliance_ticker: None,
    }
}

/// The record of a pilot whose profile could not be fetched.
pub fn failed_pilot(id: i64, name: String, error: String) -> (r: PilotIntel)
    requires
        error@.len() > 0,
    ensures
        is_failure_record(r, id, name@, error@),
{
    PilotIntel {
        character: placeholder_character(id, name),
        zkill: None,
        threat_level: ThreatLevel::Unknown,
        flags: PilotFlags::none(),
        error: Some(error),
    }
}

/// The record of a name that identity resolution did not know.
pub fn unresolved_pilot(name: String) -> (r: PilotIntel)
    ensures
        is_failure_record(r, 0, name@, not_found_message()),
{
    let msg = "Character not found";
    proof {
        reveal_strlit("Character not found");
    }
    let e = String::from_str(msg);
    assert(e@ =~= not_found_message());
    failed_pilot(0, name, e)
}

/// The record of a pilot with profile `character` and statistics `zkill`, whose weighted
/// threat score has whole-number part `score`.
pub open spec fn intel_of(character: CharacterInfo, zkill: Option<ZkillStats>, score: int) -> PilotIntel {
    PilotIntel {
        character,
        zkill,
        threat_level: threat_of(zkill, score),
        flags: flags_of(zkill),
        error: None,
    }
}

/// The record of a pilot with profile `character` and statistics `zkill`, whose weighted
/// threat score has whole-number part `score`.
pub fn fetched_pilot(character: CharacterInfo, zkill: Option<ZkillStats>, score: i64) -> (r:
    PilotIntel)
    ensures
        r == intel_of(character, zkill, score as int),
{
    let threat_level = calculate_threat_level(&zkill, score);
    let flags = detect_pilot_flags(&zkill);
    PilotIntel { character, zkill, threat_level, flags, error: None }
}

/// The record of resolved pilot `id`, named `name` in the request, once its profile fetch
/// has ended: a failed fetch gives a placeholder record carrying the error, whatever the
/// statistics; a profile gives its record with the statistics `zkill`, whose weighted threat
/// score has whole-number part `score`.
pub fn pilot_after_profile(
    id: i64,
    name: String,
    profile: Result<CharacterInfo, String>,
    zkill: Option<ZkillStats>,
    score: i64,
) -> (r: PilotIntel)
    requires
        profile matches Err(e) ==> e@.len() > 0,
    ensures
        match profile {
            Ok(c) => r == intel_of(c, zkill, score as int),
            Err(e) => is_failure_record(r, id, name@, e@),
        },
{
    match profile {
        Ok(c) => fetched_pilot(c, zkill, score),
        Err(e) => failed_pilot(id, name, e),
    }
}

/// The record assembled from the cache, where both the profile and the statistics of the
/// pilot are cached; `score` is the whole-number part of the statistics' threat score.
pub fn pilot_from_cache(character: Option<CharacterInfo>, stats: Option<ZkillStats>, score: i64) -> (r:
    Option<PilotIntel>)
    ensures
        match (character, stats) {
            (Some(c), Some(s)) => r == Some(intel_of(c, Some(s), score as int)),
            _ => r is None,
        },
{
    match (character, stats) {
        (Some(c), Some(s)) => Some(fetched_pilot(c, Some(s), score)),
        _ => None,
    }
}

/// A second lookup within the time to live gives what the first gave, from the cache:
/// once the profile `c` and statistics `st` of pilot `id` have been stored at `now_ms`,
/// a lookup at `later_ms` before either expires finds both, unchanged, so the record
/// rebuilt from them is the record the first lookup produced.
pub proof fn lemma_second_lookup_from_cache(
    profiles: Seq<(i64, CharacterInfo, i128)>,
    stats: Seq<(i64, ZkillStats, i128)>,
    id: i64,
    c: CharacterInfo,
    st: ZkillStats,
    profile_ttl: u64,
    stats_ttl: u64,
    now_ms: i64,
    later_ms: i64,
    score: int,
)
    requires
        now_ms <= later_ms,
        (later_ms as int) < expiry(now_ms as int, profile_ttl as int),
        (later_ms as int) < expiry(now_ms as int, stats_ttl as int),
    ensures
        ({
            let p = profiles.push((id, c, expiry(now_ms as int, profile_ttl as int) as i128));
            let s = stats.push((id, st, expiry(now_ms as int, stats_ttl as int) as i128));
            &&& live(p, id, later_ms as int) == Some(c)
            &&& live(s, id, later_ms as int) == Some(st)
            &&& intel_of(live(p, id, later_ms as int).unwrap(), live(s, id, later_ms as int), score)
                == intel_of(c, Some(st), score)
        }),
{
    lemma_hit_within_ttl(profiles, id, c, profile_ttl, now_ms, later_ms);
    lemma_hit_within_ttl(stats, id, st, stats_ttl, now_ms, later_ms);
}

/// `v` ordered by threat level, most dangerous first; records of one level keep their order.
pub fn sort_by_threat(v: Vec<PilotIntel>) -> (r: Vec<PilotIntel>)
    ensures
        r@ == by_threat(v@),
{
    let mut v = v;
    let ghost orig = v@;
    let ghost n = v@.len();
    let mut b0: Vec<PilotIntel> = Vec::new();
    let mut b1: Vec<PilotIntel> = Vec::new();
    let mut b2: Vec<PilotIntel> = Vec::new();
    let mut b3: Vec<PilotIntel> = Vec::new();
    let mut b4: Vec<PilotIntel> = Vec::new();
    let mut b5: Vec<PilotIntel> = Vec::new();
    while v.len() > 0
        invariant
            v@.len() <= n,
            n == orig.len(),
            v@ == orig.subrange(n - v@.len(), n as int),
            b0@ == of_rank(orig.subrange(0, n - v@.len()), 0),
            b1@ == of_rank(orig.subrange(0, n - v@.len()), 1),
            b2@ == of_rank(orig.subrange(0, n - v@.len()), 2),
            b3@ == of_rank(orig.subrange(0, n - v@.len()), 3),
            b4@ == of_rank(orig.subrange(0, n - v@.len()), 4),
            b5@ == of_rank(orig.subrange(0, n - v@.len()), 5),
        decreases v@.len(),
    {
        let ghost done = n - v@.len();
        assert(orig.subrange(0, done + 1).drop_last() =~= orig.subrange(0, done));
        assert(orig.subrange(0, done + 1).last() == v@[0]);
        let p = v.remove(0);
        assert(v@ =~= orig.subrange(n - v@.len(), n as int));
        let k = p.threat_level.rank();
        if k == 0 {
            b0.push(p);
        } else if k == 1 {
            b1.push(p);
        } else if k == 2 {
            b2.push(p);
        } else if k == 3 {
            b3.push(p);
        } else if k == 4 {
            b4.push(p);
        } else {
            b5.push(p);
        }
    }
    assert(orig.subrange(0, n as int) =~= orig);
    b0.append(&mut b1);
    b0.append(&mut b2);
    b0.append(&mut b3);
    b0.append(&mut b4);
    b0.append(&mut b5);
    assert(b0@ =~= by_threat(orig)) by {
        reveal_with_fuel(up_to_rank, 6);
    }
    b0
}

/// How many entries of `s` are true.
pub open spec fn trues(s: Seq<bool>) -> nat
    decreases s.len(),
{
    if s.len() == 0 {
        0
    } else {
        trues(s.drop_last()) + if s.last() {
            1nat
        } else {
            0nat
        }
    }
}

proof fn lemma_trues_set(s: Seq<bool>, i: int)
    requires
        0 <= i < s.len(),
        !s[i],
    ensures
        trues(s.update(i, true)) == trues(s) + 1,
    decreases s.len(),
{
    let t = s.update(i, true);
    if i < s.len() - 1 {
        assert(t.drop_last() =~= s.drop_last().update(i, true));
        lemma_trues_set(s.drop_last(), i);
    } else {
        assert(t.drop_last() =~= s.drop_last());
    }
}

proof fn lemma_trues_bounded(s: Seq<bool>)
    ensures
        trues(s) <= s.len(),
        trues(s) == s.len() ==> forall|j: int| 0 <= j < s.len() ==> #[trigger] s[j],
    decreases s.len(),
{
    if s.len() > 0 {
        lemma_trues_bounded(s.drop_last());
        if trues(s) == s.len() {
            assert forall|j: int| 0 <= j < s.len() implies #[trigger] s[j] by {
                if j < s.len() - 1 {
                    assert(s.drop_last()[j] == s[j]);
                }
            }
        }
    }
}

/// The state of one lookup: how many names it covers, which of them have their record, and
/// the records that have arrived, from the cache or from the network, in order of arrival.
pub struct LookupSession {
    pub total: usize,
    pub cache_hits: usize,
    pub received: usize,
    pub arrived: Vec<bool>,
    pub results: Vec<PilotIntel>,
}

impl LookupSession {
    /// One record has arrived per name marked as arrived, and per counted arrival.
    pub open spec fn wf(&self) -> bool {
        &&& self.arrived@.len() == self.total
        &&& self.results@.len() == self.cache_hits + self.received
        &&& self.results@.len() == trues(self.arrived@)
    }

    /// Every name has its record.
    pub open spec fn complete(&self) -> bool {
        self.cache_hits + self.received == self.total
    }

    /// A lookup of `total` names before any record has arrived.
    pub fn new(total: usize) -> (r: LookupSession)
        ensures
            r.wf(),
            r.total == total,
            r.cache_hits == 0,
            r.received == 0,
            r.results@.len() == 0,
            forall|i: int| 0 <= i < total ==> !(#[trigger] r.arrived@[i]),
    {
        let mut arrived: Vec<bool> = Vec::new();
        while arrived.len() < total
            invariant
                arrived@.len() <= total,
                forall|i: int| 0 <= i < arrived@.len() ==> !(#[trigger] arrived@[i]),
                trues(arrived@) == 0,
            decreases total - arrived@.len(),
        {
            let ghost before = arrived@;
            arrived.push(false);
            assert(arrived@.drop_last() =~= before);
        }
        LookupSession { total, cache_hits: 0, received: 0, arrived, results: Vec::new() }
    }

    /// Whether every name has its record.
    pub fn is_complete(&self) -> (r: bool)
        requires
            self.wf(),
        ensures
            r == self.complete(),
    {
        proof {
            lemma_trues_bounded(self.arrived@);
        }
        self.cache_hits + self.received == self.total
    }

    /// Whether the name at `index` may still take its record.
    pub fn awaits(&self, index: usize) -> (r: bool)
        requires
            self.wf(),
        ensures
            r == (index < self.total && !self.arrived@[index as int]),
    {
        index < self.total && !self.arrived[index]
    }

    /// Takes in the record of the name at `index`, assembled from the cache when
    /// `from_cache`, and returns the progress to report.
    pub fn record(&mut self, index: usize, pilot: PilotIntel, from_cache: bool) -> (r:
        LookupProgress)
        requires
            old(self).wf(),
            index < old(self).total,
            !old(self).arrived@[index as int],
        ensures
            final(self).wf(),
            final(self).total == old(self).total,
            final(self).arrived@ == old(self).arrived@.update(index as int, true),
            final(self).results@ == old(self).results@.push(pilot),
            final(self).cache_hits == old(self).cache_hits + if from_cache { 1int } else { 0int },
            final(self).received == old(self).received + if from_cache { 0int } else { 1int },
            r.current == old(self).cache_hits + old(self).received + 1,
            r.total == old(self).total,
            r.cache_hits == final(self).cache_hits,
    {
        proof {
            lemma_trues_set(self.arrived@, index as int);
            lemma_trues_bounded(self.arrived@.update(index as int, true));
        }
        self.arrived.set(index, true);
        if from_cache {
            self.cache_hits = self.cache_hits + 1;
        } else {
            self.received = self.received + 1;
        }
        self.results.push(pilot);
        LookupProgress {
            current: self.cache_hits + self.received,
            total: self.total,
            cache_hits: self.cache_hits,
        }
    }

    /// The records, ordered by threat level, most dangerous first; records of one level
    /// keep their order of arrival.
    pub fn finish(self) -> (r: Vec<PilotIntel>)
        requires
            self.wf(),
        ensures
            r@ == by_threat(self.results@),
            self.complete() ==> r@.len() == self.total,
    {
        proof {
            lemma_by_threat_keeps_all(self.results@);
        }
        sort_by_threat(self.results)
    }
}

/// A lookup yields one record per name: once the session is complete, every name has had
/// its record taken in, none twice, and the final list holds exactly as many records as
/// there were names, namely the records that arrived.
pub proof fn lemma_one_record_per_name(session: LookupSession)
    requires
        session.wf(),
        session.complete(),
    ensures
        forall|i: int| 0 <= i < session.total ==> #[trigger] session.arrived@[i],
        by_threat(session.results@).len() == session.total,
        by_threat(session.results@).to_multiset() == session.results@.to_multiset(),
{
    lemma_trues_bounded(session.arrived@);
    lemma_by_threat_keeps_all(session.results@);
    lemma_by_threat_permutes(session.results@);
}

} // verus!
