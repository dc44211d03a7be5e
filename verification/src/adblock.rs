//! Blocker state and statistics: the enabled flag, whether filter lists have
//! been loaded, and the counters kept per blocked request. The filter-list
//! engine itself is an external collaborator; when it reports a request as
//! blocked, the caller records it here, and the tracker/ad classification of
//! the blocked URL is part of this module's verified logic.

use vstd::prelude::*;

use crate::text::{lower_seq, spec_contains, to_lowercase_str, contains_sub};

verus! {

/// A snapshot of the blocker's counters.
#[derive(Debug, Clone)]
pub struct BlockerStats {
    pub total_blocked: u64,
    pub ads_blocked: u64,
    pub trackers_blocked: u64,
    pub blocked_domains: Vec<(String, u64)>,
}

/// The blocker's full state as reported to a caller: both flags and the
/// counters.
#[derive(Debug, Clone)]
pub struct BlockerStatus {
    pub enabled: bool,
    pub lists_loaded: bool,
    pub stats: BlockerStats,
}

/// Mathematical image of the blocker state.
pub struct BlockerModel {
    pub enabled: bool,
    pub lists_loaded: bool,
    pub total_blocked: u64,
    pub ads_blocked: u64,
    pub trackers_blocked: u64,
    pub blocked_domains: Seq<(Seq<char>, u64)>,
}

/// The blocker's mutable state: flags and counters. Starts enabled, with no
/// lists loaded and every counter at zero.
pub struct AdblockState {
    enabled: bool,
    lists_loaded: bool,
    total_blocked: u64,
    ads_blocked: u64,
    trackers_blocked: u64,
    blocked_domains: Vec<(String, u64)>,
}

impl View for AdblockState {
    type V = BlockerModel;

    closed spec fn view(&self) -> BlockerModel {
        BlockerModel {
            enabled: self.enabled,
            lists_loaded: self.lists_loaded,
            total_blocked: self.total_blocked,
            ads_blocked: self.ads_blocked,
            trackers_blocked: self.trackers_blocked,
            blocked_domains: self.blocked_domains@.map_values(|p: (String, u64)| (p.0@, p.1)),
        }
    }
}

/// A blocked URL counts as a tracker when its lowercased text mentions
/// tracking, analytics, telemetry or metrics; otherwise it counts as an ad.
pub open spec fn is_tracker_url(url: Seq<char>) -> bool {
    ||| spec_contains(lower_seq(url), "track"@)
    ||| spec_contains(lower_seq(url), "analytics"@)
    ||| spec_contains(lower_seq(url), "telemetry"@)
    ||| spec_contains(lower_seq(url), "metric"@)
}

/// Index of the first pair carrying this domain (the length when absent).
pub open spec fn first_domain_index(ds: Seq<(Seq<char>, u64)>, domain: Seq<char>) -> int
    decreases ds.len(),
{
    if ds.len() == 0 {
        0
    } else if ds[0].0 == domain {
        0
    } else {
        1 + first_domain_index(ds.drop_first(), domain)
    }
}

proof fn lemma_first_domain_index(ds: Seq<(Seq<char>, u64)>, domain: Seq<char>, r: int)
    requires
        0 <= r <= ds.len(),
        forall|j: int| 0 <= j < r ==> (#[trigger] ds[j]).0 != domain,
        r < ds.len() ==> ds[r].0 == domain,
    ensures
        first_domain_index(ds, domain) == r,
    decreases ds.len(),
{
    if ds.len() == 0 {
    } else if ds[0].0 == domain {
        assert(r == 0) by {
            if r > 0 {
                assert(ds[0].0 != domain);
            }
        }
    } else {
        assert(r >= 1) by {
            if r == 0 {
                assert(ds[r].0 == domain);
            }
        }
        let t = ds.drop_first();
        assert forall|j: int| 0 <= j < r - 1 implies (#[trigger] t[j]).0 != domain by {
            assert(t[j] == ds[j + 1]);
        }
        assert(r - 1 < t.len() ==> t[r - 1].0 == domain) by {
            if r - 1 < t.len() {
                assert(t[r - 1] == ds[r]);
            }
        }
        lemma_first_domain_index(t, domain, r - 1);
    }
}

/// One more observation of a domain: the first pair carrying it has its
/// counter go up by one (saturating), or a fresh pair is appended.
pub open spec fn spec_bump_domain(ds: Seq<(Seq<char>, u64)>, domain: Seq<char>) -> Seq<
    (Seq<char>, u64),
> {
    if exists|i: int| 0 <= i < ds.len() && (#[trigger] ds[i]).0 == domain {
        let i = first_domain_index(ds, domain);
        ds.update(i, (domain, if ds[i].1 == u64::MAX {
            u64::MAX
        } else {
            (ds[i].1 + 1) as u64
        }))
    } else {
        ds.push((domain, 1u64))
    }
}

impl AdblockState {
    /// Fresh state: blocking on, no lists loaded, all counters zero.
    pub fn new() -> (s: AdblockState)
        ensures
            s@.enabled,
            !s@.lists_loaded,
            s@.total_blocked == 0,
            s@.ads_blocked == 0,
            s@.trackers_blocked == 0,
            s@.blocked_domains.len() == 0,
    {
        let s = AdblockState {
            enabled: true,
            lists_loaded: false,
            total_blocked: 0,
            ads_blocked: 0,
            trackers_blocked: 0,
            blocked_domains: Vec::new(),
        };
        proof {
            assert(s@.blocked_domains =~= Seq::<(Seq<char>, u64)>::empty());
        }
        s
    }

    /// Turns blocking on or off; nothing else changes.
    pub fn set_enabled(&mut self, enabled: bool)
        ensures
            final(self)@ == (BlockerModel { enabled, ..old(self)@ }),
    {
        self.enabled = enabled;
    }

    /// Whether blocking is on.
    pub fn is_enabled(&self) -> (r: bool)
        ensures
            r == self@.enabled,
    {
        self.enabled
    }

    /// Records that filter lists have been loaded (or unloaded); nothing
    /// else changes.
    pub fn set_lists_loaded(&mut self, loaded: bool)
        ensures
            final(self)@ == (BlockerModel { lists_loaded: loaded, ..old(self)@ }),
    {
        self.lists_loaded = loaded;
    }

    /// Whether filter lists have been loaded.
    pub fn are_lists_loaded(&self) -> (r: bool)
        ensures
            r == self@.lists_loaded,
    {
        self.lists_loaded
    }

    /// A snapshot of the counters.
    pub fn get_stats(&self) -> (r: BlockerStats)
        ensures
            r.total_blocked == self@.total_blocked,
            r.ads_blocked == self@.ads_blocked,
            r.trackers_blocked == self@.trackers_blocked,
            r.blocked_domains@.map_values(|p: (String, u64)| (p.0@, p.1))
                == self@.blocked_domains,
    {
        let n = self.blocked_domains.len();
        let mut ds: Vec<(String, u64)> = Vec::new();
        let mut i: usize = 0;
        while i < n
            invariant
                i <= n,
                n == self.blocked_domains@.len(),
                ds@.len() == i,
                forall|j: int|
                    0 <= j < i ==> (#[trigger] ds@[j]).0@ == self.blocked_domains@[j].0@
                        && ds@[j].1 == self.blocked_domains@[j].1,
            decreases n - i,
        {
            let p = &self.blocked_domains[i];
            ds.push((p.0.clone(), p.1));
            i = i + 1;
        }
        let r = BlockerStats {
            total_blocked: self.total_blocked,
            ads_blocked: self.ads_blocked,
            trackers_blocked: self.trackers_blocked,
            blocked_domains: ds,
        };
        proof {
            assert(r.blocked_domains@.map_values(|p: (String, u64)| (p.0@, p.1))
                =~= self@.blocked_domains);
        }
        r
    }

    /// Both flags together with a snapshot of the counters.
    pub fn get_status(&self) -> (r: BlockerStatus)
        ensures
            r.enabled == self@.enabled,
            r.lists_loaded == self@.lists_loaded,
            r.stats.total_blocked == self@.total_blocked,
            r.stats.ads_blocked == self@.ads_blocked,
            r.stats.trackers_blocked == self@.trackers_blocked,
            r.stats.blocked_domains@.map_values(|p: (String, u64)| (p.0@, p.1))
                == self@.blocked_domains,
    {
        BlockerStatus { enabled: self.is_enabled(), lists_loaded: self.are_lists_loaded(), stats: self.get_stats() }
    }

    /// Zeroes every counter and forgets the per-domain counts; the flags
    /// stay as they are.
    pub fn reset_stats(&mut self)
        ensures
            final(self)@.enabled == old(self)@.enabled,
            final(self)@.lists_loaded == old(self)@.lists_loaded,
            final(self)@.total_blocked == 0,
            final(self)@.ads_blocked == 0,
            final(self)@.trackers_blocked == 0,
            final(self)@.blocked_domains.len() == 0,
    {
        self.total_blocked = 0;
        self.ads_blocked = 0;
        self.trackers_blocked = 0;
        self.blocked_domains = Vec::new();
        proof {
            assert(self@.blocked_domains =~= Seq::<(Seq<char>, u64)>::empty());
        }
    }

    /// Records one blocked request: the total goes up by one (saturating),
    /// the URL is classified as tracker or ad and that counter goes up too,
    /// and the domain's own count is bumped when a domain is supplied.
    pub fn record_block(&mut self, url: &str, domain: Option<String>)
        ensures
            final(self)@.enabled == old(self)@.enabled,
            final(self)@.lists_loaded == old(self)@.lists_loaded,
            final(self)@.total_blocked == if old(self)@.total_blocked == u64::MAX {
                u64::MAX
            } else {
                (old(self)@.total_blocked + 1) as u64
            },
            is_tracker_url(url@) ==> final(self)@.trackers_blocked == (if old(
                self,
            )@.trackers_blocked == u64::MAX {
                u64::MAX
            } else {
                (old(self)@.trackers_blocked + 1) as u64
            }) && final(self)@.ads_blocked == old(self)@.ads_blocked,
            !is_tracker_url(url@) ==> final(self)@.ads_blocked == (if old(self)@.ads_blocked
                == u64::MAX {
                u64::MAX
            } else {
                (old(self)@.ads_blocked + 1) as u64
            }) && final(self)@.trackers_blocked == old(self)@.trackers_blocked,
            match domain {
                Some(d) => final(self)@.blocked_domains == spec_bump_domain(
                    old(self)@.blocked_domains,
                    d@,
                ),
                None => final(self)@.blocked_domains == old(self)@.blocked_domains,
            },
    {
        self.total_blocked = saturating_inc(self.total_blocked);
        let lowered = to_lowercase_str(url);
        let tracker = contains_sub(lowered.as_str(), "track") || contains_sub(
            lowered.as_str(),
            "analytics",
        ) || contains_sub(lowered.as_str(), "telemetry") || contains_sub(
            lowered.as_str(),
            "metric",
        );
        if tracker {
            self.trackers_blocked = saturating_inc(self.trackers_blocked);
        } else {
            self.ads_blocked = saturating_inc(self.ads_blocked);
        }
        match domain {
            Some(d) => {
                self.bump_domain(d);
            },
            None => {},
        }
    }

    /// Bumps one domain's count, or appends it with a count of one.
    fn bump_domain(&mut self, domain: String)
        ensures
            final(self)@ == (BlockerModel {
                blocked_domains: spec_bump_domain(old(self)@.blocked_domains, domain@),
                ..old(self)@
            }),
    {
        let ghost ds = self@.blocked_domains;
        let n = self.blocked_domains.len();
        let mut i: usize = 0;
        while i < n
            invariant
                i <= n,
                n == self.blocked_domains@.len(),
                ds == self@.blocked_domains,
                self@ == old(self)@,
                forall|j: int| 0 <= j < i ==> (#[trigger] ds[j]).0 != domain@,
            decreases n - i,
        {
            let hit = {
                let p = &self.blocked_domains[i];
                p.0 == domain
            };
            if hit {
                let old_count = self.blocked_domains[i].1;
                let bumped = saturating_inc(old_count);
                let _ = self.blocked_domains.remove(i);
                self.blocked_domains.insert(i, (domain, bumped));
                proof {
                    assert(ds[i as int].0 == domain@);
                    lemma_first_domain_index(ds, domain@, i as int);
                    assert(self@.blocked_domains =~= spec_bump_domain(ds, domain@));
                }
                return ;
            }
            i = i + 1;
        }
        self.blocked_domains.push((domain, 1));
        proof {
            assert(forall|j: int| 0 <= j < ds.len() ==> (#[trigger] ds[j]).0 != domain@);
            assert(self@.blocked_domains =~= spec_bump_domain(ds, domain@));
        }
    }
}

/// One more, capped at the counter's maximum.
fn saturating_inc(x: u64) -> (r: u64)
    ensures
        r == if x == u64::MAX {
            u64::MAX
        } else {
            (x + 1) as u64
        },
{
    if x == u64::MAX {
        u64::MAX
    } else {
        x + 1
    }
}

} // verus!
