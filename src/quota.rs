//! Admission gates: at most `capacity` admissions in any span of `window_ms`
//! milliseconds, one bucket shared process-wide or one bucket per client.
use vstd::prelude::*;

verus! {

/// Limits of one bucket.
#[derive(Clone, Copy, Debug, PartialEq, Eq, Structural)]
pub struct QuotaConfig {
    pub window_ms: u64,
    pub capacity: u64,
}

/// The process-wide gate on upstream calls: 190 per five minutes, under the
/// provider's ceiling of about 200.
pub const UPSTREAM_CAPACITY: u64 = 190;

pub const UPSTREAM_WINDOW_MS: u64 = 300_000;

/// The per-client gate on the secondary endpoint: 30 per minute.
pub const CLIENT_CAPACITY: u64 = 30;

pub const CLIENT_WINDOW_MS: u64 = 60_000;

impl QuotaConfig {
    pub fn upstream() -> (c: QuotaConfig)
        ensures
            c.capacity == UPSTREAM_CAPACITY,
            c.window_ms == UPSTREAM_WINDOW_MS,
    {
        QuotaConfig { window_ms: UPSTREAM_WINDOW_MS, capacity: UPSTREAM_CAPACITY }
    }

    pub fn per_client() -> (c: QuotaConfig)
        ensures
            c.capacity == CLIENT_CAPACITY,
            c.window_ms == CLIENT_WINDOW_MS,
    {
        QuotaConfig { window_ms: CLIENT_WINDOW_MS, capacity: CLIENT_CAPACITY }
    }
}

/// Times ascending.
pub open spec fn ascending(h: Seq<u64>) -> bool {
    forall|i: int, j: int| 0 <= i <= j < h.len() ==> h[i] <= h[j]
}

/// Every `capacity + 1` consecutive admissions span at least `window` ms, so no
/// half-open span of `window` ms holds more than `capacity` of them.
pub open spec fn spaced(h: Seq<u64>, capacity: nat, window: nat) -> bool {
    forall|i: int| 0 <= i && i + capacity < h.len() ==> #[trigger] h[i] + window <= h[i + capacity]
}

/// The time an admission asked for at `now` is recorded at: never before the
/// previous admission, so the record stays ascending.
pub open spec fn effective_time(h: Seq<u64>, now: u64) -> u64 {
    if h.len() > 0 && h.last() > now { h.last() } else { now }
}

/// Whether an admission at `t` keeps at most `c` admissions in any `w` ms.
pub open spec fn room_at(h: Seq<u64>, c: nat, w: nat, t: int) -> bool {
    h.len() < c || h[h.len() - c] + w <= t
}

/// The earliest time at which an admission asked for at `now` can be granted.
pub open spec fn earliest_slot(h: Seq<u64>, c: nat, w: nat, now: u64) -> int {
    let base = effective_time(h, now) as int;
    if h.len() < c || h[h.len() - c] + w <= base {
        base
    } else {
        h[h.len() - c] + w
    }
}

/// The record of the latest `c` admissions out of `h`.
pub open spec fn tail_of(h: Seq<u64>, c: nat) -> Seq<u64> {
    if h.len() <= c { h } else { h.subrange(h.len() - c, h.len() as int) }
}

/// Recording an admission that respects the quota keeps the record ascending
/// and spaced.
pub proof fn lemma_push_keeps_quota(h: Seq<u64>, t: u64, c: nat, w: nat)
    requires
        c > 0,
        ascending(h),
        spaced(h, c, w),
        effective_time(h, t) == t,
        room_at(h, c, w, t as int),
    ensures
        ascending(h.push(t)),
        spaced(h.push(t), c, w),
{
    let nh = h.push(t);
    assert forall|i: int, j: int| 0 <= i <= j < nh.len() implies nh[i] <= nh[j] by {
        if j == nh.len() - 1 && i < j {
            assert(h[i] <= h.last());
        }
    }
    assert forall|i: int| 0 <= i && i + c < nh.len() implies #[trigger] nh[i] + w <= nh[i + c] by {
        if i + c == h.len() {
            assert(nh[i] == h[h.len() - c]);
        } else {
            assert(h[i] + w <= h[i + c]);
        }
    }
}

/// A bucket: the admissions it granted, of which it keeps the latest `capacity`.
pub struct QuotaBucket {
    config: QuotaConfig,
    recent: Vec<u64>,
    history: Ghost<Seq<u64>>,
}

impl QuotaBucket {
    pub closed spec fn quota(&self) -> QuotaConfig {
        self.config
    }

    /// Every admission granted so far, in order.
    pub closed spec fn admitted(&self) -> Seq<u64> {
        self.history@
    }

    pub closed spec fn wf(&self) -> bool {
        &&& self.config.capacity > 0
        &&& self.recent@ == tail_of(self.history@, self.config.capacity as nat)
        &&& ascending(self.history@)
        &&& spaced(self.history@, self.config.capacity as nat, self.config.window_ms as nat)
    }

    pub fn new(config: QuotaConfig) -> (b: QuotaBucket)
        requires
            config.capacity > 0,
        ensures
            b.wf(),
            b.quota() == config,
            b.admitted() == Seq::<u64>::empty(),
    {
        QuotaBucket { config, recent: Vec::new(), history: Ghost(Seq::empty()) }
    }

    /// The latest admission, or `now` when none is later.
    fn effective(&self, now: u64) -> (t: u64)
        requires
            self.wf(),
        ensures
            t == effective_time(self.admitted(), now),
    {
        let n = self.recent.len();
        if n > 0 && self.recent[n - 1] > now {
            self.recent[n - 1]
        } else {
            now
        }
    }

    /// The time `w` ms after the oldest of the latest `capacity` admissions, if
    /// the bucket is full and that time fits in a `u64`.
    fn reopens_at(&self) -> (r: (bool, Option<u64>))
        requires
            self.wf(),
        ensures
            r.0 == (self.admitted().len() >= self.quota().capacity),
            r.0 ==> match r.1 {
                Some(t) => t == self.admitted()[self.admitted().len() - self.quota().capacity]
                    + self.quota().window_ms,
                None => self.admitted()[self.admitted().len() - self.quota().capacity]
                    + self.quota().window_ms > u64::MAX,
            },
    {
        let n = self.recent.len();
        if (n as u64) < self.config.capacity {
            (false, None)
        } else {
            proof {
                let h = self.history@;
                let c = self.config.capacity as nat;
                assert(self.recent@[0] == h[h.len() - c]);
            }
            (true, self.recent[0].checked_add(self.config.window_ms))
        }
    }

    /// Record an admission at `t`, which respects the quota.
    fn record(&mut self, t: u64)
        requires
            old(self).wf(),
            effective_time(old(self).admitted(), t) == t,
            room_at(old(self).admitted(), old(self).quota().capacity as nat,
                old(self).quota().window_ms as nat, t as int),
        ensures
            final(self).wf(),
            final(self).quota() == old(self).quota(),
            final(self).admitted() == old(self).admitted().push(t),
    {
        let ghost h = self.history@;
        let ghost c = self.config.capacity as nat;
        let ghost w = self.config.window_ms as nat;
        let ghost nh = h.push(t);
        let ghost before = self.recent@;
        self.recent.push(t);
        if self.recent.len() as u64 > self.config.capacity {
            proof {
                assert(h.len() >= c);
                assert(before =~= h.subrange(h.len() - c, h.len() as int));
            }
            self.recent.remove(0);
            proof {
                assert(self.recent@ =~= nh.subrange(nh.len() - c, nh.len() as int));
            }
        } else {
            proof {
                if h.len() >= c {
                    assert(before.len() == c);
                }
                assert(self.recent@ =~= nh);
            }
        }
        self.history = Ghost(nh);
        proof {
            lemma_push_keeps_quota(h, t, c, w);
        }
    }

    /// Blocking convention: reserve the earliest slot for a call asked for at
    /// `now` and return how long the caller waits before making it. `None`
    /// only where that slot lies beyond what a `u64` of milliseconds holds.
    #[verifier::rlimit(60)]
    pub fn reserve(&mut self, now: u64) -> (wait: Option<u64>)
        requires
            old(self).wf(),
        ensures
            final(self).wf(),
            final(self).quota() == old(self).quota(),
            ({
                let slot = earliest_slot(old(self).admitted(), old(self).quota().capacity as nat,
                    old(self).quota().window_ms as nat, now);
                match wait {
                    Some(d) => slot <= u64::MAX && d == slot - now
                        && final(self).admitted() == old(self).admitted().push(slot as u64),
                    None => slot > u64::MAX && final(self).admitted() == old(self).admitted(),
                }
            }),
    {
        let ghost h = self.admitted();
        let ghost c = self.quota().capacity as nat;
        let ghost w = self.quota().window_ms as nat;
        let base = self.effective(now);
        let (full, reopen) = self.reopens_at();
        if !full {
            assert(room_at(h, c, w, base as int));
            self.record(base);
            Some(base - now)
        } else {
            match reopen {
                None => None,
                Some(t) => {
                    let slot = if t <= base { base } else { t };
                    assert(slot == earliest_slot(h, c, w, now));
                    assert(effective_time(h, slot) == slot);
                    assert(room_at(h, c, w, slot as int));
                    self.record(slot);
                    Some(slot - now)
                },
            }
        }
    }

    /// Non-blocking convention: admit a call asked for at `now` if the quota
    /// has room for it, and report whether it did. A refused call is not
    /// recorded.
    pub fn try_admit(&mut self, now: u64) -> (admitted: bool)
        requires
            old(self).wf(),
        ensures
            final(self).wf(),
            final(self).quota() == old(self).quota(),
            ({
                let t = effective_time(old(self).admitted(), now);
                &&& admitted == room_at(old(self).admitted(), old(self).quota().capacity as nat,
                    old(self).quota().window_ms as nat, t as int)
                &&& final(self).admitted() == if admitted {
                    old(self).admitted().push(t)
                } else {
                    old(self).admitted()
                }
            }),
    {
        let t = self.effective(now);
        let (full, reopen) = self.reopens_at();
        let room = if !full {
            true
        } else {
            match reopen {
                None => false,
                Some(r) => r <= t,
            }
        };
        if room {
            self.record(t);
        }
        room
    }
}

/// Under any sequence of blocking or non-blocking calls, any `capacity + 1`
/// admissions that a bucket grants span at least `window_ms`: no span of
/// `window_ms` milliseconds holds more than `capacity` of them.
pub proof fn lemma_bucket_window_bound(b: &QuotaBucket, i: int, j: int)
    requires
        b.wf(),
        0 <= i,
        i + b.quota().capacity <= j < b.admitted().len(),
    ensures
        b.admitted()[i] + b.quota().window_ms <= b.admitted()[j],
{
    let h = b.admitted();
    let c = b.quota().capacity as nat;
    assert(h[i] + b.quota().window_ms <= h[i + c]);
    assert(h[i + c] <= h[j]);
}

/// Blocking calls are delayed, never refused: while every granted slot lies at
/// least one window below the end of the `u64` millisecond range, the slot that
/// `reserve` grants fits, so it returns a wait.
pub proof fn lemma_reserve_never_refuses(b: &QuotaBucket, now: u64)
    requires
        b.wf(),
        forall|i: int| 0 <= i < b.admitted().len() ==> #[trigger] b.admitted()[i] + b.quota().window_ms <= u64::MAX,
    ensures
        earliest_slot(b.admitted(), b.quota().capacity as nat, b.quota().window_ms as nat, now) <= u64::MAX,
{
    let h = b.admitted();
    let c = b.quota().capacity as nat;
    if h.len() >= c {
        assert(h[h.len() - c] + b.quota().window_ms <= u64::MAX);
    }
}

} // verus!
