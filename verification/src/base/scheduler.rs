//! Pacing of requests.
use vstd::prelude::*;

verus! {

/// Serial processing supplies backpressure; pace requests across repeated tasks.
#[derive(Debug)]
pub struct Pacer {
    interval: u64,
    last: Option<u64>,
}

/// How long to wait at `now` when the last request went at `last`, in milliseconds.
pub open spec fn pause(interval: nat, last: Option<u64>, now: u64) -> nat {
    match last {
        Some(last) => if now < last {
            interval
        } else if now - last < interval {
            (interval - (now - last)) as nat
        } else {
            0
        },
        None => 0,
    }
}

impl Pacer {
    /// The least time between two requests, in milliseconds.
    pub closed spec fn interval(&self) -> nat {
        self.interval as nat
    }

    /// When the last request went, in milliseconds of a clock that does not run backwards.
    pub closed spec fn last(&self) -> Option<u64> {
        self.last
    }

    /// Leaves `seconds` between two requests.
    pub fn new(seconds: u64) -> (res: Pacer)
        ensures
            res.interval() == if seconds * 1000 > u64::MAX {
                u64::MAX as nat
            } else {
                (seconds * 1000) as nat
            },
            res.last() is None,
    {
        let interval: u64 = if seconds > u64::MAX / 1000 {
            u64::MAX
        } else {
            seconds * 1000
        };
        Pacer { interval, last: None }
    }

    /// How long to wait at `now` before the next request.
    pub fn wait(&self, now: u64) -> (res: u64)
        ensures
            res == pause(self.interval(), self.last(), now),
    {
        match self.last {
            Some(last) => if now < last {
                self.interval
            } else if now - last < self.interval {
                self.interval - (now - last)
            } else {
                0
            },
            None => 0,
        }
    }

    /// The next request goes at `now`.
    pub fn mark(&mut self, now: u64)
        ensures
            final(self).last() == Some(now),
            final(self).interval() == old(self).interval(),
    {
        self.last = Some(now);
    }
}

/// Two requests are never closer than the interval: after the wait that was asked for, the time
/// since the last request is the interval at least.
pub proof fn law_paced(interval: nat, last: u64, now: u64)
    requires
        last <= now,
    ensures
        now + pause(interval, Some(last), now) - last >= interval,
{
}

/// Nothing waits longer than it must: the first request goes at once, one after the interval too, and
/// one before that exactly when the interval is over.
pub proof fn law_no_longer_than_needed(interval: nat, last: u64, now: u64)
    requires
        last <= now,
    ensures
        pause(interval, None, now) == 0,
        now - last >= interval ==> pause(interval, Some(last), now) == 0,
        now - last < interval ==> now + pause(interval, Some(last), now) == last + interval,
{
}

} // verus!
