//! Accounting model of the memory-tracking session.
//!
//! The process that hosts the compiler intercepts every allocation and
//! deallocation and drives one of these values: a running signed total, its
//! peak, and a configurable ceiling. The interception itself and the
//! allocation-free breaker that fires on the ceiling live outside the
//! library; every bookkeeping decision is made here.
//!
//! Only one session is active at a time (a `start_tracking` /
//! `end_tracking` pair, never nested), which the contracts enforce. A
//! tracker value carries no state of any other tracker, so sessions in
//! different processes cannot observe one another.

use vstd::prelude::*;

verus! {

/// Whether `peak` has crossed the ceiling `limit`, when one is set.
pub open spec fn spec_over_limit(limit: Option<u64>, peak: i64) -> bool {
    match limit {
        Some(l) => peak > l,
        None => false,
    }
}

/// The signed peak as reported bytes: a negative reading is a benign
/// bookkeeping corner case and clamps to zero.
pub open spec fn spec_clamped_peak(peak: i64) -> u64 {
    if peak > 0 {
        peak as u64
    } else {
        0
    }
}

/// Clamps a signed peak reading to reportable bytes.
pub fn clamp_peak(peak: i64) -> (r: u64)
    ensures
        r == spec_clamped_peak(peak),
{
    if peak > 0 {
        peak as u64
    } else {
        0
    }
}

/// One memory-tracking session's bookkeeping.
pub struct MemoryTracker {
    active: bool,
    limit: Option<u64>,
    current: i64,
    peak: i64,
    breached: bool,
}

impl MemoryTracker {
    /// Whether a session is running.
    pub closed spec fn active(&self) -> bool {
        self.active
    }

    /// The ceiling of the running session; `None` records totals without
    /// enforcing anything.
    pub closed spec fn limit(&self) -> Option<u64> {
        self.limit
    }

    /// The running total of tracked bytes; deallocations of memory
    /// allocated before the session began can drive it negative.
    pub closed spec fn current(&self) -> i64 {
        self.current
    }

    /// The largest total observed during the session.
    pub closed spec fn peak(&self) -> i64 {
        self.peak
    }

    /// Whether the ceiling has been crossed during this session.
    pub closed spec fn breached(&self) -> bool {
        self.breached
    }

    /// Whether a session is running, for callers that must check before
    /// they account.
    pub fn is_active(&self) -> (b: bool)
        ensures
            b == self.active(),
    {
        self.active
    }

    /// The running total, for callers that must guard the accounting
    /// arithmetic before they call it.
    pub fn current_total(&self) -> (c: i64)
        ensures
            c == self.current(),
    {
        self.current
    }

    /// A fresh tracker with no session running.
    pub fn new() -> (t: Self)
        ensures
            !t.active(),
    {
        MemoryTracker { active: false, limit: None, current: 0, peak: 0, breached: false }
    }

    /// Begins a session. The counters start from zero: nothing observed
    /// before the session — in this process or any other — is visible in
    /// what it reports.
    pub fn start_tracking(&mut self, limit: Option<u64>)
        requires
            !old(self).active(),
        ensures
            final(self).active(),
            final(self).limit() == limit,
            final(self).current() == 0,
            final(self).peak() == 0,
            !final(self).breached(),
    {
        self.active = true;
        self.limit = limit;
        self.current = 0;
        self.peak = 0;
        self.breached = false;
    }

    /// Records an allocation of `n` bytes. Returns true exactly when this
    /// allocation crossed the ceiling for the first time in the session:
    /// the caller's one chance to fire its allocation-free breaker.
    pub fn on_alloc(&mut self, n: usize) -> (exceeded: bool)
        requires
            old(self).active(),
            n <= i64::MAX,
            old(self).current() + n <= i64::MAX,
        ensures
            final(self).active(),
            final(self).limit() == old(self).limit(),
            final(self).current() == old(self).current() + n,
            final(self).peak() == if final(self).current() > old(self).peak() {
                final(self).current()
            } else {
                old(self).peak()
            },
            final(self).breached() == (old(self).breached() || spec_over_limit(
                old(self).limit(),
                final(self).peak(),
            )),
            exceeded == (!old(self).breached() && final(self).breached()),
    {
        self.current = self.current + (n as i64);
        if self.current > self.peak {
            self.peak = self.current;
        }
        let newly_over: bool = match self.limit {
            Some(l) => self.peak > 0 && (self.peak as u64) > l,
            None => false,
        };
        let exceeded = !self.breached && newly_over;
        self.breached = self.breached || newly_over;
        exceeded
    }

    /// Records a deallocation of `n` bytes. The total may legitimately go
    /// negative when memory allocated before the session is freed during
    /// it; the peak and the breach state are unaffected.
    pub fn on_dealloc(&mut self, n: usize)
        requires
            old(self).active(),
            n <= i64::MAX,
            i64::MIN <= old(self).current() - n,
        ensures
            final(self).active(),
            final(self).limit() == old(self).limit(),
            final(self).current() == old(self).current() - n,
            final(self).peak() == old(self).peak(),
            final(self).breached() == old(self).breached(),
    {
        self.current = self.current - (n as i64);
    }

    /// Ends the session and reports the observed peak, signed.
    pub fn end_tracking(&mut self) -> (peak: i64)
        requires
            old(self).active(),
        ensures
            !final(self).active(),
            peak == old(self).peak(),
    {
        self.active = false;
        self.peak
    }
}

} // verus!
