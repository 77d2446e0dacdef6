use vstd::prelude::*;

verus! {

/// Words per minute derived from a count of correctly typed characters and an
/// elapsed time in milliseconds: `letters * 12000 / millis`. The constant
/// 12000 folds "five characters count as one word" into "scale a
/// per-millisecond rate up to a minute" (60000 / 5). Zero elapsed time is
/// defined to yield zero rather than a division by zero.
pub open spec fn spec_wpm(letters: nat, millis: nat) -> nat {
    if millis == 0 {
        0
    } else {
        (letters * 12000) / millis
    }
}

/// `spec_wpm`, clamped into `u64` range.
pub open spec fn spec_wpm_clamped(letters: nat, millis: nat) -> u64 {
    if spec_wpm(letters, millis) > u64::MAX {
        u64::MAX
    } else {
        spec_wpm(letters, millis) as u64
    }
}

/// Words per minute for `letters` correctly typed characters over `millis`
/// elapsed milliseconds; zero when no time has elapsed.
pub fn wpm_from_letters(letters: usize, millis: u64) -> (wpm: u64)
    ensures
        wpm == spec_wpm_clamped(letters as nat, millis as nat),
{
    if millis == 0 {
        return 0;
    }
    let product: u128 = (letters as u128) * 12000;
    let quotient: u128 = product / (millis as u128);
    if quotient > u64::MAX as u128 {
        u64::MAX
    } else {
        quotient as u64
    }
}

/// Wall-clock bookkeeping for one timed typing session. All methods take the
/// current wall-clock reading in milliseconds as an argument, so the whole
/// type is a pure function of the readings handed to it.
#[derive(Clone, Copy, Debug, PartialEq, Eq, Structural)]
pub struct TimeManager {
    /// Clock reading at which the session started.
    pub start_ms: u64,
    /// The session's time budget.
    pub duration_ms: u64,
    /// Clock reading of the most recent words-per-minute sample.
    pub last_wpm_update_ms: u64,
    /// The most recent words-per-minute sample.
    pub last_wpm: u64,
}

impl TimeManager {
    pub open spec fn wf(&self) -> bool {
        &&& self.duration_ms > 0
        &&& self.last_wpm_update_ms >= self.start_ms
    }

    /// Elapsed milliseconds at `now_ms`; a clock reading earlier than the
    /// start counts as no elapsed time.
    pub open spec fn spec_elapsed(&self, now_ms: u64) -> nat {
        if now_ms >= self.start_ms {
            (now_ms - self.start_ms) as nat
        } else {
            0
        }
    }

    /// Whether the time budget has run out at `now_ms`: strictly more than
    /// `duration_ms` elapsed.
    pub open spec fn spec_expired(&self, now_ms: u64) -> bool {
        now_ms > self.start_ms + self.duration_ms
    }

    /// Share of the budget already spent, as a whole percentage clamped to
    /// 100.
    pub open spec fn spec_percent(&self, now_ms: u64) -> u16 {
        let p = self.spec_elapsed(now_ms) * 100 / (self.duration_ms as nat);
        if p > 100 {
            100u16
        } else {
            p as u16
        }
    }

    pub fn new(duration_ms: u64, now_ms: u64) -> (r: TimeManager)
        requires
            duration_ms > 0,
        ensures
            (r == TimeManager {
                start_ms: now_ms,
                duration_ms: duration_ms,
                last_wpm_update_ms: now_ms,
                last_wpm: 0,
            }),
            r.wf(),
    {
        TimeManager { start_ms: now_ms, duration_ms, last_wpm_update_ms: now_ms, last_wpm: 0 }
    }

    pub fn time_expired(&self, now_ms: u64) -> (r: bool)
        ensures
            r == self.spec_expired(now_ms),
    {
        now_ms >= self.start_ms && now_ms - self.start_ms > self.duration_ms
    }

    fn milis_elapsed(&self, now_ms: u64) -> (r: u64)
        ensures
            r == self.spec_elapsed(now_ms),
    {
        if now_ms >= self.start_ms {
            now_ms - self.start_ms
        } else {
            0
        }
    }

    pub fn percent_elapsed(&self, now_ms: u64) -> (r: u16)
        requires
            self.wf(),
        ensures
            r == self.spec_percent(now_ms),
            r <= 100,
    {
        let elapsed = self.milis_elapsed(now_ms);
        let p: u128 = (elapsed as u128) * 100 / (self.duration_ms as u128);
        if p > 100 {
            100
        } else {
            p as u16
        }
    }

    pub fn duration(&self) -> (r: u64)
        ensures
            r == self.duration_ms,
    {
        self.duration_ms
    }

    fn real_wpm(&self, correct_letters: usize, now_ms: u64) -> (r: u64)
        ensures
            r == spec_wpm_clamped(correct_letters as nat, self.spec_elapsed(now_ms)),
    {
        wpm_from_letters(correct_letters, self.milis_elapsed(now_ms))
    }

    /// Throttled words-per-minute sampling: the value is recomputed at most
    /// once per second of wall time and cached in between, so the display
    /// does not jitter from sub-second recomputation. A clock reading behind
    /// the last sample yields zero and leaves the cache alone.
    pub fn wpm(&mut self, correct_letters: usize, now_ms: u64) -> (r: u64)
        requires
            old(self).wf(),
        ensures
            final(self).wf(),
            final(self).start_ms == old(self).start_ms,
            final(self).duration_ms == old(self).duration_ms,
            now_ms < old(self).last_wpm_update_ms ==> r == 0 && *final(self) == *old(self),
            now_ms >= old(self).last_wpm_update_ms + 1000 ==> {
                &&& final(self).last_wpm == spec_wpm_clamped(
                    correct_letters as nat,
                    old(self).spec_elapsed(now_ms),
                )
                &&& final(self).last_wpm_update_ms == now_ms
                &&& r == final(self).last_wpm
            },
            old(self).last_wpm_update_ms <= now_ms < old(self).last_wpm_update_ms + 1000 ==> r
                == old(self).last_wpm && *final(self) == *old(self),
    {
        if now_ms < self.last_wpm_update_ms {
            return 0;
        }
        if now_ms - self.last_wpm_update_ms >= 1000 {
            self.last_wpm = self.real_wpm(correct_letters, now_ms);
            self.last_wpm_update_ms = now_ms;
        }
        self.last_wpm
    }
}

/// Once a session has expired it stays expired: expiry is monotone in the
/// clock reading, so `time_expired` can never revert to false.
pub proof fn lemma_expired_monotonic(tm: TimeManager, earlier_ms: u64, later_ms: u64)
    requires
        earlier_ms <= later_ms,
        tm.spec_expired(earlier_ms),
    ensures
        tm.spec_expired(later_ms),
{
}

} // verus!
