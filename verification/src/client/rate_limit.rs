//! The limiter that spaces the requests of one client.
//!
//! Time is a count of milliseconds on a clock that never runs backwards; where the count
//! starts does not matter. The limiter holds one slot, the instant before which no request
//! may start. Whoever drives it holds the slot exclusively from the moment `lock` lets
//! it start until `release` has recorded the end of the attempt, and serves those who
//! wait in the order in which they came.

use vstd::prelude::*;

verus! {

/// Forced cool down, in milliseconds, after every request. The server allows at most two
/// requests per second, so the lowest safe value is 500.
pub const REQ_COOLDOWN_DURATION: u64 = 600;

/// What a caller who wants to start a request is told.
#[derive(Debug, PartialEq, Eq, Clone, Copy, Structural)]
pub enum Start {
    /// The request may start now.
    Now,
    /// Sleep until the given instant, then ask again: another caller may have moved the
    /// deadline in the meantime.
    Wait(u64),
}

/// One request attempt: when it was let through, and when it was over, whether it
/// succeeded or failed.
pub struct Attempt {
    pub start: u64,
    pub end: u64,
}

/// Whether a request may start at `now` under the deadline in the slot.
pub open spec fn permits(deadline: Option<u64>, now: u64) -> bool {
    match deadline {
        None => true,
        Some(instant) => now >= instant,
    }
}

/// The slot after an attempt that was over at `now`.
pub open spec fn released(now: u64) -> Option<u64> {
    Some((now + REQ_COOLDOWN_DURATION) as u64)
}

/// Whether a limiter whose slot holds `deadline` can have let `attempts` through, one after
/// the other: each started when the slot permitted it, and its end was recorded before
/// the next was let through.
pub open spec fn serves(deadline: Option<u64>, attempts: Seq<Attempt>) -> bool
    decreases attempts.len(),
{
    attempts.len() > 0 ==> {
        &&& permits(deadline, attempts[0].start)
        &&& attempts[0].start <= attempts[0].end
        &&& attempts[0].end + REQ_COOLDOWN_DURATION <= u64::MAX
        &&& serves(released(attempts[0].end), attempts.drop_first())
    }
}

/// The slot of one client: the next instant at which a request may start, if any request
/// was made yet.
#[derive(Debug)]
pub struct RateLimit {
    deadline: Option<u64>,
}

impl RateLimit {
    /// What the slot holds.
    pub closed spec fn deadline(&self) -> Option<u64> {
        self.deadline
    }

    /// A limiter through which no request has gone: the first may start at once.
    pub fn new() -> (limit: Self)
        ensures
            limit.deadline() is None,
    {
        RateLimit { deadline: None }
    }

    /// Decides whether a request may start at `now`. The slot is not changed: the caller
    /// keeps it to itself until it has called `release`.
    pub fn lock(&self, now: u64) -> (start: Start)
        ensures
            start == (match self.deadline() {
                Some(instant) if now < instant => Start::Wait(instant),
                _ => Start::Now,
            }),
            start is Now <==> permits(self.deadline(), now),
    {
        match self.deadline {
            None => Start::Now,
            Some(instant) => if now >= instant {
                Start::Now
            } else {
                Start::Wait(instant)
            },
        }
    }

    /// Records that an attempt was over at `now`, whether it succeeded or failed: the
    /// next request may start one cool down later.
    pub fn release(&mut self, now: u64)
        requires
            now + REQ_COOLDOWN_DURATION <= u64::MAX,
        ensures
            final(self).deadline() == released(now),
    {
        self.deadline = Some(now + REQ_COOLDOWN_DURATION);
    }
}

impl Default for RateLimit {
    fn default() -> (limit: Self)
        ensures
            limit.deadline() is None,
    {
        RateLimit::new()
    }
}

/// Any two attempts that one limiter let through, one after the other, started at least one
/// cool down apart; and so did any two further apart.
pub proof fn lemma_requests_are_spaced(deadline: Option<u64>, attempts: Seq<Attempt>, i: int, j: int)
    requires
        serves(deadline, attempts),
        0 <= i < j < attempts.len(),
    ensures
        attempts[j].start >= attempts[i].start + (j - i) * REQ_COOLDOWN_DURATION,
    decreases attempts.len(),
{
    let rest = attempts.drop_first();
    reveal_with_fuel(serves, 2);
    if i > 0 {
        lemma_requests_are_spaced(released(attempts[0].end), rest, i - 1, j - 1);
    } else if j > 1 {
        lemma_requests_are_spaced(released(attempts[0].end), rest, 0, j - 1);
    }
}

/// No attempt starts before the deadline that the slot held at first.
pub proof fn lemma_first_deadline_is_kept(deadline: u64, attempts: Seq<Attempt>, i: int)
    requires
        serves(Some(deadline), attempts),
        0 <= i < attempts.len(),
    ensures
        attempts[i].start >= deadline,
{
    if i > 0 {
        lemma_requests_are_spaced(Some(deadline), attempts, 0, i);
    }
}

} // verus!
