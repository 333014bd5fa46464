//! Admission and store-write rate limiting.
//!
//! The IP limiter keeps one window per address: each address may be
//! admitted at most `burst` times per `interval_ms` window. The database
//! limiter is a single token that recharges `interval_ms` after the last
//! allowed write. All times are milliseconds from a monotonic clock.

use vstd::prelude::*;

use crate::ids::IpAddress;

verus! {

/// Configuration of the admission limiter.
#[derive(Clone, Copy, Debug, PartialEq, Eq, Structural)]
pub struct RateLimiterProps {
    /// Window length in milliseconds.
    pub interval_ms: u64,
    /// Admissions allowed per address per window.
    pub burst: u32,
}

/// Per-address window state.
#[derive(Clone, Copy, Debug, PartialEq, Eq, Structural)]
pub struct IpEntry {
    pub ip: IpAddress,
    /// When the current window opened.
    pub window_start: u64,
    /// Admissions already granted in the current window.
    pub count: u32,
}

/// Whether a window that opened at `window_start` is over at `now`.
pub open spec fn window_expired(window_start: u64, interval_ms: u64, now: u64) -> bool {
    now >= window_start && now - window_start >= interval_ms
}

/// Admissions granted at the start of a fresh window: the first attempt is
/// itself admitted when the burst allows any at all.
pub open spec fn fresh_count(burst: u32) -> u32 {
    if burst > 0 {
        1u32
    } else {
        0u32
    }
}

/// Window state after one attempt at `now`.
pub open spec fn step_window(
    window_start: u64,
    count: u32,
    interval_ms: u64,
    burst: u32,
    now: u64,
) -> (u64, u32) {
    if window_expired(window_start, interval_ms, now) {
        (now, fresh_count(burst))
    } else if count < burst {
        (window_start, (count + 1) as u32)
    } else {
        (window_start, count)
    }
}

/// Whether an attempt at `now` is rate limited.
pub open spec fn step_limited(
    window_start: u64,
    count: u32,
    interval_ms: u64,
    burst: u32,
    now: u64,
) -> bool {
    if window_expired(window_start, interval_ms, now) {
        burst == 0
    } else {
        count >= burst
    }
}

/// The window of `ip` in an entry table, if one is tracked.
pub open spec fn ip_state_of(entries: Seq<IpEntry>, ip: IpAddress) -> Option<(u64, u32)> {
    if exists|i: int| 0 <= i < entries.len() && entries[i].ip == ip {
        let i = choose|i: int| 0 <= i < entries.len() && entries[i].ip == ip;
        Some((entries[i].window_start, entries[i].count))
    } else {
        None
    }
}

/// Frame rule for `ip_state_of`: two tables with unique addresses that agree
/// everywhere but at one index track every other address identically.
proof fn lemma_ip_state_frame(s1: Seq<IpEntry>, s2: Seq<IpEntry>, changed: int, other: IpAddress)
    requires
        0 <= changed < s2.len(),
        s1.len() == s2.len() || (s2.len() == s1.len() + 1 && changed == s1.len()),
        forall|i: int| 0 <= i < s1.len() && i != changed ==> s1[i] == s2[i],
        forall|i: int, j: int| 0 <= i < j < s1.len() ==> s1[i].ip != s1[j].ip,
        forall|i: int, j: int| 0 <= i < j < s2.len() ==> s2[i].ip != s2[j].ip,
        other != s2[changed].ip,
        changed < s1.len() ==> other != s1[changed].ip,
    ensures
        ip_state_of(s1, other) == ip_state_of(s2, other),
{
    if exists|i: int| 0 <= i < s1.len() && s1[i].ip == other {
        let i = choose|i: int| 0 <= i < s1.len() && s1[i].ip == other;
        assert(i != changed);
        assert(s2[i].ip == other);
        let j = choose|j: int| 0 <= j < s2.len() && s2[j].ip == other;
        assert(j == i);
    } else {
        if exists|j: int| 0 <= j < s2.len() && s2[j].ip == other {
            let j = choose|j: int| 0 <= j < s2.len() && s2[j].ip == other;
            assert(j != changed);
            assert(s1[j].ip == other);
            assert(false);
        }
    }
}

/// Per-IP token window limiter for the admission pipeline.
#[derive(Clone, Debug)]
pub struct IpRateLimiter {
    pub props: RateLimiterProps,
    pub entries: Vec<IpEntry>,
}

impl IpRateLimiter {
    /// One entry per address, and no window ever holds more than `burst`.
    pub open spec fn wf(self) -> bool {
        &&& forall|i: int, j: int|
            0 <= i < j < self.entries@.len() ==> self.entries@[i].ip != self.entries@[j].ip
        &&& forall|i: int|
            0 <= i < self.entries@.len() ==> #[trigger] self.entries@[i].count <= self.props.burst
    }

    /// The tracked window of `ip`, if any.
    pub open spec fn ip_state(self, ip: IpAddress) -> Option<(u64, u32)> {
        ip_state_of(self.entries@, ip)
    }

    /// Whether an attempt by `ip` at `now` is limited, given the state.
    pub open spec fn spec_limited(self, ip: IpAddress, now: u64) -> bool {
        match self.ip_state(ip) {
            None => self.props.burst == 0,
            Some((ws, count)) => step_limited(ws, count, self.props.interval_ms, self.props.burst, now),
        }
    }

    /// The window of `ip` after an attempt at `now`.
    pub open spec fn spec_next(self, ip: IpAddress, now: u64) -> (u64, u32) {
        match self.ip_state(ip) {
            None => (now, fresh_count(self.props.burst)),
            Some((ws, count)) => step_window(ws, count, self.props.interval_ms, self.props.burst, now),
        }
    }

    pub fn new(props: RateLimiterProps) -> (r: Self)
        ensures
            r.wf(),
            r.props == props,
            r.entries@.len() == 0,
    {
        IpRateLimiter { props, entries: Vec::new() }
    }

    /// Index of the entry tracking `ip`, if one exists.
    fn find(&self, ip: IpAddress) -> (r: Option<usize>)
        ensures
            match r {
                Some(i) => i < self.entries@.len() && self.entries@[i as int].ip == ip,
                None => forall|i: int| 0 <= i < self.entries@.len() ==> self.entries@[i].ip != ip,
            },
    {
        let mut i: usize = 0;
        while i < self.entries.len()
            invariant
                i <= self.entries@.len(),
                forall|j: int| 0 <= j < i ==> self.entries@[j].ip != ip,
            decreases self.entries@.len() - i,
        {
            if self.entries[i].ip == ip {
                return Some(i);
            }
            i = i + 1;
        }
        None
    }

    /// One admission attempt by `ip` at `now`. Returns whether the attempt
    /// is refused, and advances the window of `ip` alone.
    pub fn should_limit_rate(&mut self, ip: IpAddress, now: u64) -> (limited: bool)
        requires
            old(self).wf(),
        ensures
            final(self).wf(),
            final(self).props == old(self).props,
            limited == old(self).spec_limited(ip, now),
            final(self).ip_state(ip) == Some(old(self).spec_next(ip, now)),
            forall|other: IpAddress|
                other != ip ==> final(self).ip_state(other) == old(self).ip_state(other),
    {
        let ghost pre = *self;
        match self.find(ip) {
            None => {
                proof {
                    assert(pre.ip_state(ip) is None);
                }
                let limited = self.props.burst == 0;
                let entry = IpEntry { ip, window_start: now, count: fresh_count_exec(self.props.burst) };
                self.entries.push(entry);
                proof {
                    let entries = self.entries@;
                    let n = entries.len() - 1;
                    assert(entries[n].ip == ip);
                    assert(self.ip_state(ip) == Some((now, fresh_count(self.props.burst)))) by {
                        let i = choose|i: int| 0 <= i < entries.len() && entries[i].ip == ip;
                        assert(i == n);
                    }
                    assert forall|other: IpAddress| other != ip
                        implies self.ip_state(other) == pre.ip_state(other) by {
                        lemma_ip_state_frame(pre.entries@, entries, n, other);
                    }
                }
                limited
            },
            Some(i) => {
                let entry = self.entries[i];
                proof {
                    let j = choose|j: int|
                        0 <= j < pre.entries@.len() && pre.entries@[j].ip == ip;
                    assert(j == i);
                    assert(pre.ip_state(ip) == Some((entry.window_start, entry.count)));
                }
                let expired = now >= entry.window_start
                    && now - entry.window_start >= self.props.interval_ms;
                let (limited, new_entry) = if expired {
                    (
                        self.props.burst == 0,
                        IpEntry { ip, window_start: now, count: fresh_count_exec(self.props.burst) },
                    )
                } else if entry.count < self.props.burst {
                    (false, IpEntry { ip, window_start: entry.window_start, count: entry.count + 1 })
                } else {
                    (true, entry)
                };
                let _ = self.entries.remove(i);
                self.entries.insert(i, new_entry);
                proof {
                    let entries = self.entries@;
                    assert(entries =~= pre.entries@.update(i as int, new_entry));
                    assert(self.ip_state(ip) == Some((new_entry.window_start, new_entry.count))) by {
                        assert(entries[i as int].ip == ip);
                        let k = choose|k: int| 0 <= k < entries.len() && entries[k].ip == ip;
                        if k != i as int {
                            assert(entries[k] == pre.entries@[k]);
                            assert(pre.entries@[k].ip != pre.entries@[i as int].ip);
                            assert(false);
                        }
                    }
                    assert forall|other: IpAddress| other != ip
                        implies self.ip_state(other) == pre.ip_state(other) by {
                        lemma_ip_state_frame(pre.entries@, entries, i as int, other);
                    }
                }
                limited
            },
        }
    }

    /// Evict every address whose window is over, so the table stays bounded
    /// by the number of addresses seen in one window.
    pub fn prune(&mut self, now: u64)
        requires
            old(self).wf(),
        ensures
            final(self).wf(),
            final(self).props == old(self).props,
            forall|i: int|
                0 <= i < final(self).entries@.len()
                    ==> !window_expired(
                        #[trigger] final(self).entries@[i].window_start,
                        final(self).props.interval_ms,
                        now,
                    ),
            forall|i: int|
                0 <= i < old(self).entries@.len()
                    && !window_expired(
                        #[trigger] old(self).entries@[i].window_start,
                        old(self).props.interval_ms,
                        now,
                    ) ==> final(self).entries@.contains(old(self).entries@[i]),
            forall|i: int|
                0 <= i < final(self).entries@.len()
                    ==> old(self).entries@.contains(#[trigger] final(self).entries@[i]),
    {
        let ghost pre = *self;
        let mut kept: Vec<IpEntry> = Vec::new();
        let mut i: usize = 0;
        while i < self.entries.len()
            invariant
                *self == pre,
                pre.wf(),
                i <= pre.entries@.len(),
                forall|k: int|
                    0 <= k < kept@.len()
                        ==> !window_expired(
                            #[trigger] kept@[k].window_start,
                            pre.props.interval_ms,
                            now,
                        ),
                forall|k: int|
                    0 <= k < i
                        && !window_expired(
                            #[trigger] pre.entries@[k].window_start,
                            pre.props.interval_ms,
                            now,
                        ) ==> kept@.contains(pre.entries@[k]),
                forall|k: int|
                    0 <= k < kept@.len() ==> pre.entries@.contains(#[trigger] kept@[k]),
                forall|k: int, l: int| 0 <= k < l < kept@.len() ==> kept@[k].ip != kept@[l].ip,
                forall|k: int|
                    0 <= k < kept@.len() ==> #[trigger] kept@[k].count <= pre.props.burst,
                forall|k: int, l: int|
                    0 <= k < kept@.len() && i <= l < pre.entries@.len()
                        ==> kept@[k].ip != pre.entries@[l].ip,
            decreases pre.entries@.len() - i,
        {
            let e = self.entries[i];
            let expired = now >= e.window_start && now - e.window_start >= self.props.interval_ms;
            if !expired {
                proof {
                    assert forall|k: int| 0 <= k < kept@.len()
                        implies kept@[k].ip != e.ip by {
                        let l = choose|l: int| 0 <= l < pre.entries@.len() && pre.entries@[l] == kept@[k];
                    }
                }
                let ghost kept0 = kept@;
                kept.push(e);
                proof {
                    assert(pre.entries@.contains(pre.entries@[i as int]));
                    assert forall|k: int|
                        0 <= k < i + 1
                            && !window_expired(
                                #[trigger] pre.entries@[k].window_start,
                                pre.props.interval_ms,
                                now,
                            ) implies kept@.contains(pre.entries@[k]) by {
                        if k < i {
                            let m = choose|m: int| 0 <= m < kept0.len() && kept0[m] == pre.entries@[k];
                            assert(kept@[m] == pre.entries@[k]);
                        } else {
                            assert(kept@[kept@.len() - 1] == pre.entries@[k]);
                        }
                    }
                }
            }
            i = i + 1;
        }
        self.entries = kept;
    }
}

/// Executable twin of `fresh_count`.
fn fresh_count_exec(burst: u32) -> (r: u32)
    ensures
        r == fresh_count(burst),
{
    if burst > 0 {
        1
    } else {
        0
    }
}

/// How many of the attempts at `times` are admitted, starting from the
/// window `(window_start, count)`.
pub open spec fn allowed_count(
    window_start: u64,
    count: u32,
    interval_ms: u64,
    burst: u32,
    times: Seq<u64>,
) -> int
    decreases times.len(),
{
    if times.len() == 0 {
        0
    } else {
        let t = times[0];
        let admitted: int = if step_limited(window_start, count, interval_ms, burst, t) {
            0
        } else {
            1
        };
        let next = step_window(window_start, count, interval_ms, burst, t);
        admitted + allowed_count(next.0, next.1, interval_ms, burst, times.drop_first())
    }
}

/// Law: attempts that all fall inside the window that opened at
/// `window_start` admit at most `burst - count` of them.
pub proof fn lemma_window_admits_at_most_burst(
    window_start: u64,
    count: u32,
    interval_ms: u64,
    burst: u32,
    times: Seq<u64>,
)
    requires
        count <= burst,
        forall|i: int|
            0 <= i < times.len()
                ==> #[trigger] times[i] >= window_start && times[i] - window_start < interval_ms,
    ensures
        allowed_count(window_start, count, interval_ms, burst, times) <= burst - count,
    decreases times.len(),
{
    if times.len() > 0 {
        let t = times[0];
        assert(!window_expired(window_start, interval_ms, t));
        let next = step_window(window_start, count, interval_ms, burst, t);
        assert(next.0 == window_start);
        assert(forall|i: int|
            0 <= i < times.drop_first().len()
                ==> #[trigger] times.drop_first()[i] >= window_start
                    && times.drop_first()[i] - window_start < interval_ms);
        lemma_window_admits_at_most_burst(next.0, next.1, interval_ms, burst, times.drop_first());
    }
}

/// Law: a previously unseen address attempting any number of times within
/// one window length of its first attempt is admitted at most `burst` times.
pub proof fn lemma_burst_per_window(interval_ms: u64, burst: u32, times: Seq<u64>)
    requires
        times.len() > 0,
        forall|i: int|
            0 <= i < times.len()
                ==> #[trigger] times[i] >= times[0] && times[i] - times[0] < interval_ms,
    ensures
        allowed_count(times[0], 0, interval_ms, burst, times) <= burst,
{
    lemma_window_admits_at_most_burst(times[0], 0, interval_ms, burst, times);
}

/// Single token limiter that gates writes toward the durable store.
#[derive(Clone, Copy, Debug, PartialEq, Eq, Structural)]
pub struct RateLimiter {
    /// Milliseconds that must pass after an allowed event before the next.
    pub interval_ms: u64,
    /// When the last allowed event happened.
    pub last_allowed: Option<u64>,
}

impl RateLimiter {
    /// Whether an event at `now` must be limited: something was allowed less
    /// than one interval ago.
    pub open spec fn spec_limited(self, now: u64) -> bool {
        match self.last_allowed {
            None => false,
            Some(last) => !(now >= last && now - last >= self.interval_ms),
        }
    }

    pub fn new(interval_ms: u64) -> (r: Self)
        ensures
            r.interval_ms == interval_ms,
            r.last_allowed is None,
    {
        RateLimiter { interval_ms, last_allowed: None }
    }

    /// One attempt at `now`; on success the token is spent until
    /// `now + interval_ms`.
    pub fn should_limit_rate(&mut self, now: u64) -> (limited: bool)
        ensures
            limited == old(self).spec_limited(now),
            final(self).interval_ms == old(self).interval_ms,
            final(self).last_allowed == if limited {
                old(self).last_allowed
            } else {
                Some(now)
            },
    {
        let limited = match self.last_allowed {
            None => false,
            Some(last) => !(now >= last && now - last >= self.interval_ms),
        };
        if !limited {
            self.last_allowed = Some(now);
        }
        limited
    }
}

} // verus!
