//! Snapshot caches with a time-to-live: terminal metadata (7 days)
//! and computed trade routes (24 hours).  The caches themselves are
//! plain data; reading and writing them to disk is their callers'
//! concern.

use vstd::prelude::*;

use crate::entities::Terminal;
use crate::text::dec_str;
use crate::trade_route::TradeRoute;

verus! {

/// Terminal snapshots stay valid for seven days.
pub const TERMINAL_CACHE_TTL_SECS: u64 = 7 * 24 * 60 * 60;

/// Computed routes stay valid for one day.
pub const ROUTES_CACHE_TTL_SECS: u64 = 24 * 60 * 60;

/// Age in seconds of something cached at `cached_at`, as seen at
/// `now`; a cache from the future counts as fresh.
pub open spec fn spec_age(now: u64, cached_at: u64) -> u64 {
    if now >= cached_at {
        (now - cached_at) as u64
    } else {
        0
    }
}

/// An age rendered for people: seconds below a minute, then whole
/// minutes, hours and days.
pub open spec fn spec_age_string(secs: u64) -> Seq<char> {
    if secs < 60 {
        dec_str(secs as int) + "s"@
    } else if secs < 3600 {
        dec_str(secs as int / 60) + "m"@
    } else if secs < 86400 {
        dec_str(secs as int / 3600) + "h"@
    } else {
        dec_str(secs as int / 86400) + "d"@
    }
}

/// Render an age for people, exactly.
pub fn age_string_of(secs: u64) -> (r: String)
    ensures
        r@ == spec_age_string(secs),
{
    proof {
        reveal_strlit("s");
        reveal_strlit("m");
        reveal_strlit("h");
        reveal_strlit("d");
    }
    let mut s: String;
    if secs < 60 {
        s = crate::text::u64_to_dec(secs);
        s.append("s");
    } else if secs < 3600 {
        s = crate::text::u64_to_dec(secs / 60);
        s.append("m");
    } else if secs < 86400 {
        s = crate::text::u64_to_dec(secs / 3600);
        s.append("h");
    } else {
        s = crate::text::u64_to_dec(secs / 86400);
        s.append("d");
    }
    proof {
        assert(s@ =~= spec_age_string(secs));
    }
    s
}

/// The ids of the no-questions-asked terminals, in snapshot order.
pub open spec fn nqa_ids_of(terminals: Seq<Terminal>) -> Seq<i32>
    decreases terminals.len(),
{
    if terminals.len() == 0 {
        Seq::empty()
    } else if terminals.last().is_nqa {
        nqa_ids_of(terminals.drop_last()).push(terminals.last().id)
    } else {
        nqa_ids_of(terminals.drop_last())
    }
}

/// A cached terminal snapshot with the game version it was taken for.
pub struct TerminalCache {
    /// Game version when this cache was created.
    pub game_version: String,
    /// Unix seconds when this cache was created.
    pub cached_at: u64,
    /// All terminals from the snapshot.
    pub terminals: Vec<Terminal>,
}

impl TerminalCache {
    /// Cache a terminal snapshot, stamped with the current time.
    pub fn new(game_version: String, terminals: Vec<Terminal>) -> (r: TerminalCache)
        ensures
            r.game_version == game_version,
            r.terminals == terminals,
    {
        let cached_at: u64 = crate::clock::unix_now_secs();
        TerminalCache { game_version, cached_at, terminals }
    }

    /// The ids of the no-questions-asked terminals, for fast lookup.
    pub fn nqa_terminal_ids(&self) -> (r: crate::entities::NqaSet)
        ensures
            r.ids@ == nqa_ids_of(self.terminals@),
    {
        let n: usize = self.terminals.len();
        let mut ids: Vec<i32> = Vec::new();
        proof {
            assert(nqa_ids_of(self.terminals@.take(0)) =~= Seq::<i32>::empty());
        }
        for i in 0..n
            invariant
                n == self.terminals@.len(),
                ids@ == nqa_ids_of(self.terminals@.take(i as int)),
        {
            proof {
                crate::seqs::lemma_take_step(self.terminals@, i as int);
            }
            if self.terminals[i].is_nqa {
                ids.push(self.terminals[i].id);
            }
        }
        proof {
            crate::seqs::lemma_take_all(self.terminals@);
        }
        crate::entities::NqaSet { ids }
    }

    /// Whether a terminal id belongs to a no-questions-asked terminal.
    pub fn is_nqa(&self, terminal_id: i32) -> (r: bool)
        ensures
            r == exists|i: int|
                0 <= i < self.terminals@.len() && (#[trigger] self.terminals@[i]).id == terminal_id
                    && self.terminals@[i].is_nqa,
    {
        let n: usize = self.terminals.len();
        for i in 0..n
            invariant
                n == self.terminals@.len(),
                forall|k: int|
                    0 <= k < i ==> !((#[trigger] self.terminals@[k]).id == terminal_id
                        && self.terminals@[k].is_nqa),
        {
            if self.terminals[i].id == terminal_id && self.terminals[i].is_nqa {
                return true;
            }
        }
        false
    }

    /// The cache's age in seconds as seen at a given clock reading.
    pub fn age_at(&self, now: u64) -> (r: u64)
        ensures
            r == spec_age(now, self.cached_at),
    {
        if now >= self.cached_at {
            now - self.cached_at
        } else {
            0
        }
    }

    /// The cache's age in seconds, read from the clock.
    pub fn age(&self) -> (r: u64)
        ensures
            exists|now: u64| r == #[trigger] spec_age(now, self.cached_at),
    {
        let now: u64 = crate::clock::unix_now_secs();
        let r = self.age_at(now);
        proof {
            assert(r == spec_age(now, self.cached_at));
        }
        r
    }

    /// Whether the cache is older than its time-to-live.
    pub fn is_expired(&self) -> (r: bool)
        ensures
            exists|now: u64| r == (#[trigger] spec_age(now, self.cached_at)
                > TERMINAL_CACHE_TTL_SECS),
    {
        let now: u64 = crate::clock::unix_now_secs();
        let r = self.age_at(now) > TERMINAL_CACHE_TTL_SECS;
        proof {
            assert(r == (spec_age(now, self.cached_at) > TERMINAL_CACHE_TTL_SECS));
        }
        r
    }

    /// The cache's age rendered for people.
    pub fn age_string(&self) -> (r: String)
        ensures
            exists|now: u64| r@ == spec_age_string(#[trigger] spec_age(now, self.cached_at)),
    {
        let now: u64 = crate::clock::unix_now_secs();
        let r = age_string_of(self.age_at(now));
        proof {
            assert(r@ == spec_age_string(spec_age(now, self.cached_at)));
        }
        r
    }
}

/// A cached set of computed trade routes.
pub struct RoutesCache {
    /// Unix seconds when this cache was created.
    pub cached_at: u64,
    /// All calculated trade routes.
    pub routes: Vec<TradeRoute>,
}

impl RoutesCache {
    /// Cache computed routes, stamped with the current time.
    pub fn new(routes: Vec<TradeRoute>) -> (r: RoutesCache)
        ensures
            r.routes == routes,
    {
        let cached_at: u64 = crate::clock::unix_now_secs();
        RoutesCache { cached_at, routes }
    }

    /// The cache's age in seconds as seen at a given clock reading.
    pub fn age_at(&self, now: u64) -> (r: u64)
        ensures
            r == spec_age(now, self.cached_at),
    {
        if now >= self.cached_at {
            now - self.cached_at
        } else {
            0
        }
    }

    /// The cache's age in seconds, read from the clock.
    pub fn age(&self) -> (r: u64)
        ensures
            exists|now: u64| r == #[trigger] spec_age(now, self.cached_at),
    {
        let now: u64 = crate::clock::unix_now_secs();
        let r = self.age_at(now);
        proof {
            assert(r == spec_age(now, self.cached_at));
        }
        r
    }

    /// Whether the cache is older than its time-to-live.
    pub fn is_expired(&self) -> (r: bool)
        ensures
            exists|now: u64| r == (#[trigger] spec_age(now, self.cached_at)
                > ROUTES_CACHE_TTL_SECS),
    {
        let now: u64 = crate::clock::unix_now_secs();
        let r = self.age_at(now) > ROUTES_CACHE_TTL_SECS;
        proof {
            assert(r == (spec_age(now, self.cached_at) > ROUTES_CACHE_TTL_SECS));
        }
        r
    }

    /// The cache's age rendered for people.
    pub fn age_string(&self) -> (r: String)
        ensures
            exists|now: u64| r@ == spec_age_string(#[trigger] spec_age(now, self.cached_at)),
    {
        let now: u64 = crate::clock::unix_now_secs();
        let r = age_string_of(self.age_at(now));
        proof {
            assert(r@ == spec_age_string(spec_age(now, self.cached_at)));
        }
        r
    }
}

} // verus!
