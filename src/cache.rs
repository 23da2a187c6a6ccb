use vstd::prelude::*;

verus! {

/// The value and expiry instant (milliseconds) of the newest entry for `id` among `es`.
pub open spec fn latest<V>(es: Seq<(i64, V, i128)>, id: i64) -> Option<(V, i128)>
    decreases es.len(),
{
    if es.len() == 0 {
        None
    } else if es.last().0 == id {
        Some((es.last().1, es.last().2))
    } else {
        latest(es.drop_last(), id)
    }
}

/// What a lookup of `id` at `now_ms` finds among `es`: the newest entry's value, while
/// it has not expired.
pub open spec fn live<V>(es: Seq<(i64, V, i128)>, id: i64, now_ms: int) -> Option<V> {
    match latest(es, id) {
        Some((v, exp)) => if now_ms < exp {
            Some(v)
        } else {
            None
        },
        None => None,
    }
}

/// The instant at which an entry stored at `now_ms` for `ttl_secs` seconds expires.
pub open spec fn expiry(now_ms: int, ttl_secs: int) -> int {
    now_ms + ttl_secs * 1000
}

/// Values kept per identity, each until its own expiry instant.
pub struct TtlCache<V> {
    pub entries: Vec<(i64, V, i128)>,
}

pub open spec fn found<V>(r: Option<&V>, v: Option<V>) -> bool {
    match (r, v) {
        (Some(x), Some(y)) => *x == y,
        (None, None) => true,
        _ => false,
    }
}

impl<V> TtlCache<V> {
    /// An empty cache.
    pub fn new() -> (r: TtlCache<V>)
        ensures
            r.entries@.len() == 0,
    {
        TtlCache { entries: Vec::new() }
    }

    /// The value kept for `id`, where one was stored and has not expired at `now_ms`.
    pub fn get(&self, id: i64, now_ms: i64) -> (r: Option<&V>)
        ensures
            found(r, live(self.entries@, id, now_ms as int)),
    {
        let mut i: usize = self.entries.len();
        assert(self.entries@.subrange(0, i as int) =~= self.entries@);
        while i > 0
            invariant
                i <= self.entries@.len(),
                latest(self.entries@, id) == latest(self.entries@.subrange(0, i as int), id),
            decreases i,
        {
            let ghost pre = self.entries@.subrange(0, i as int);
            assert(pre.drop_last() =~= self.entries@.subrange(0, i - 1));
            let e = &self.entries[i - 1];
            assert(pre.last() == *e);
            if e.0 == id {
                if (now_ms as i128) < e.2 {
                    return Some(&e.1);
                } else {
                    return None;
                }
            }
            i = i - 1;
        }
        None
    }

    /// Keeps `value` for `id` for `ttl_secs` seconds from `now_ms`, in place of what was
    /// kept for it before.
    pub fn set(&mut self, id: i64, value: V, ttl_secs: u64, now_ms: i64)
        ensures
            final(self).entries@ == old(self).entries@.push(
                (id, value, expiry(now_ms as int, ttl_secs as int) as i128),
            ),
    {
        let until = (now_ms as i128) + (ttl_secs as i128) * 1000;
        self.entries.push((id, value, until));
    }

    /// Forgets every value.
    pub fn clear(&mut self)
        ensures
            final(self).entries@.len() == 0,
    {
        self.entries.clear();
    }
}

/// A value stored in the cache is found there again, unchanged, until its time to live
/// has passed: after storing `v` for `id` at `now_ms` with `ttl_secs > 0`, a lookup of `id`
/// at any `later_ms` from `now_ms` up to the expiry finds `v`.
pub proof fn lemma_hit_within_ttl<V>(
    es: Seq<(i64, V, i128)>,
    id: i64,
    v: V,
    ttl_secs: u64,
    now_ms: i64,
    later_ms: i64,
)
    requires
        now_ms <= later_ms,
        (later_ms as int) < expiry(now_ms as int, ttl_secs as int),
    ensures
        live(es.push((id, v, expiry(now_ms as int, ttl_secs as int) as i128)), id, later_ms as int)
            == Some(v),
{
    let s = es.push((id, v, expiry(now_ms as int, ttl_secs as int) as i128));
    assert(s.last() == (id, v, expiry(now_ms as int, ttl_secs as int) as i128));
    assert(expiry(now_ms as int, ttl_secs as int) < i128::MAX) by (nonlinear_arith)
        requires
            i64::MIN <= now_ms <= i64::MAX,
            0 <= ttl_secs <= u64::MAX,
    ;
}

} // verus!
