//! The usage ledger of the secondary generation endpoint and the guard that
//! every call to that endpoint passes first.
use vstd::prelude::*;
use crate::keyed::KeyedQuota;
use crate::quota::{effective_time, room_at};

verus! {

/// Calls allowed in any rolling minute.
pub const PER_MINUTE_LIMIT: u64 = 5;

/// Calls allowed in any rolling day.
pub const PER_DAY_LIMIT: u64 = 20;

pub const MINUTE_MS: u64 = 60_000;

pub const DAY_MS: u64 = 86_400_000;

/// One successful call to the secondary endpoint.
#[derive(Clone, Copy, Debug, PartialEq, Eq, Structural)]
pub struct UsageLogEntry {
    /// Milliseconds since the epoch.
    pub timestamp: u64,
    /// A best-effort cost estimate, possibly zero.
    pub tokens_estimated: u64,
}

/// Why a call to the secondary endpoint was refused.
#[derive(Clone, Copy, Debug, PartialEq, Eq, Structural)]
pub enum GuardDenial {
    /// The caller's own gate is exhausted.
    ClientLimited,
    /// The per-minute budget is spent.
    MinuteLimit,
    /// The per-day budget is spent.
    DailyLimit,
}

impl GuardDenial {
    pub open spec fn reason_spec(&self) -> Seq<char> {
        match self {
            GuardDenial::ClientLimited => "Too many requests. Please try again later."@,
            GuardDenial::MinuteLimit => "Rate limit exceeded (5 requests/minute). Please try again in a moment."@,
            GuardDenial::DailyLimit => "Daily rate limit exceeded (20 requests/day). Resets rolling 24h."@,
        }
    }

    /// The reason told to the caller.
    pub fn reason(&self) -> (r: &'static str)
        ensures
            r@ == self.reason_spec(),
    {
        match self {
            GuardDenial::ClientLimited => "Too many requests. Please try again later.",
            GuardDenial::MinuteLimit => "Rate limit exceeded (5 requests/minute). Please try again in a moment.",
            GuardDenial::DailyLimit => "Daily rate limit exceeded (20 requests/day). Resets rolling 24h.",
        }
    }
}

/// How many entries of `s` are later than `from`.
pub open spec fn count_after(s: Seq<UsageLogEntry>, from: int) -> nat
    decreases s.len(),
{
    if s.len() == 0 {
        0
    } else {
        count_after(s.drop_last(), from) + if s.last().timestamp > from { 1nat } else { 0nat }
    }
}

/// The guard's verdict from the caller's gate and the two counts, checked in
/// that order: all three must pass.
pub open spec fn guard_spec(client_admitted: bool, minute_count: nat, day_count: nat) -> Result<(), GuardDenial> {
    if !client_admitted {
        Err(GuardDenial::ClientLimited)
    } else if minute_count >= PER_MINUTE_LIMIT {
        Err(GuardDenial::MinuteLimit)
    } else if day_count >= PER_DAY_LIMIT {
        Err(GuardDenial::DailyLimit)
    } else {
        Ok(())
    }
}

pub fn guard_decision(client_admitted: bool, minute_count: u64, day_count: u64) -> (r: Result<(), GuardDenial>)
    ensures
        r == guard_spec(client_admitted, minute_count as nat, day_count as nat),
{
    if !client_admitted {
        Err(GuardDenial::ClientLimited)
    } else if minute_count >= PER_MINUTE_LIMIT {
        Err(GuardDenial::MinuteLimit)
    } else if day_count >= PER_DAY_LIMIT {
        Err(GuardDenial::DailyLimit)
    } else {
        Ok(())
    }
}

/// Append-only log of successful calls; windows are counted at read time.
pub struct UsageLedger {
    entries: Vec<UsageLogEntry>,
}

impl UsageLedger {
    pub closed spec fn entries(&self) -> Seq<UsageLogEntry> {
        self.entries@
    }

    pub fn new() -> (l: UsageLedger)
        ensures
            l.entries() == Seq::<UsageLogEntry>::empty(),
    {
        UsageLedger { entries: Vec::new() }
    }

    pub fn append(&mut self, entry: UsageLogEntry)
        ensures
            final(self).entries() == old(self).entries().push(entry),
    {
        self.entries.push(entry);
    }

    /// How many entries lie within the last `span` ms before `now`, that is
    /// later than `now - span`.
    pub fn count_within(&self, now: u64, span: u64) -> (c: u64)
        ensures
            c == count_after(self.entries(), now - span),
    {
        let n = self.entries.len();
        let mut c: u64 = 0;
        let mut i: usize = 0;
        while i < n
            invariant
                n == self.entries@.len(),
                i <= n,
                c <= i,
                c == count_after(self.entries@.subrange(0, i as int), now - span),
            decreases n - i,
        {
            let ts = self.entries[i].timestamp;
            let later = now < span || ts > now - span;
            proof {
                let s = self.entries@.subrange(0, i as int + 1);
                assert(s.drop_last() =~= self.entries@.subrange(0, i as int));
            }
            if later {
                c = c + 1;
            }
            i = i + 1;
        }
        proof {
            assert(self.entries@.subrange(0, n as int) =~= self.entries@);
        }
        c
    }
}

/// Guard a call of `client` at `now`: its own gate first, then the per-minute
/// and the per-day counts of the ledger. A call that the client's bucket
/// admits stays counted there even where a ledger count then refuses it.
pub fn check_secondary(ledger: &UsageLedger, clients: &mut KeyedQuota, client: u128, now: u64) -> (r: Result<(), GuardDenial>)
    requires
        old(clients).wf(),
    ensures
        final(clients).wf(),
        final(clients).quota() == old(clients).quota(),
        ({
            let h = old(clients).admitted_for(client);
            let t = effective_time(h, now);
            let admitted = room_at(h, old(clients).quota().capacity as nat,
                old(clients).quota().window_ms as nat, t as int);
            &&& r == guard_spec(admitted,
                count_after(ledger.entries(), now - MINUTE_MS),
                count_after(ledger.entries(), now - DAY_MS))
            &&& final(clients).admitted_for(client) == if admitted { h.push(t) } else { h }
        }),
        forall|k: u128| k != client ==> #[trigger] final(clients).admitted_for(k) == old(clients).admitted_for(k),
{
    let admitted = clients.check_key(client, now);
    let minute = ledger.count_within(now, MINUTE_MS);
    let day = ledger.count_within(now, DAY_MS);
    guard_decision(admitted, minute, day)
}

} // verus!
