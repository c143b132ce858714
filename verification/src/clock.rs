//! Readings of the two clocks: the monotonic one, by which spans are measured, and the calendar.

use vstd::prelude::*;

verus! {

/// One reading of both clocks, taken together.
#[derive(Debug, Clone, Copy)]
pub struct Clock {
    /// Nanoseconds on the monotonic clock, counted from some moment of this process.
    pub mono: i64,
    /// Nanoseconds since 1970-01-01 00:00:00 UTC.
    pub unix: i64,
}

/// How many nanoseconds lie between `then` and `now`; none where `then` is the later one.
pub open spec fn elapsed(now: int, then: int) -> int {
    if now > then {
        now - then
    } else {
        0
    }
}

/// How many whole seconds lie between `then` and `now`.
pub fn elapsed_secs(now: i64, then: i64) -> (r: u64)
    ensures
        r == elapsed(now as int, then as int) / 1_000_000_000,
{
    if now > then {
        let span: i128 = now as i128 - then as i128;
        (span / 1_000_000_000) as u64
    } else {
        assert(0int / 1_000_000_000 == 0int);
        0
    }
}

impl Clock {
    /// The calendar second of the moment `then`; 0 for moments before 1970.
    pub open spec fn epoch(self, then: i64) -> int {
        let at = self.unix - elapsed(self.mono as int, then as int);
        if at >= 0 {
            at / 1_000_000_000
        } else {
            0
        }
    }

    /// The calendar second of the moment `then`; 0 for moments before 1970.
    pub fn epoch_of(&self, then: i64) -> (r: i64)
        ensures
            r == self.epoch(then),
    {
        let span: i128 = if self.mono > then {
            self.mono as i128 - then as i128
        } else {
            0
        };
        let at: i128 = self.unix as i128 - span;
        if at >= 0 {
            (at / 1_000_000_000) as i64
        } else {
            0
        }
    }

    /// The moment of the calendar second `epoch`, where that has passed.
    pub open spec fn moment(self, epoch: i64) -> Option<i64> {
        if epoch * 1_000_000_000 <= self.unix {
            Some((self.mono - (self.unix - epoch * 1_000_000_000)) as i64)
        } else {
            None
        }
    }

    /// The moment of the calendar second `epoch`, where that has passed.
    pub fn moment_of(&self, epoch: i64) -> (r: Option<i64>)
        requires
            self.mono >= 0,
            epoch >= 0,
        ensures
            r == self.moment(epoch),
    {
        let then: i128 = epoch as i128 * 1_000_000_000;
        if then <= self.unix as i128 {
            let span: i128 = self.unix as i128 - then;
            Some((self.mono as i128 - span) as i64)
        } else {
            None
        }
    }
}

/// A moment restored from a calendar second is shown as that second again, at any later reading
/// of clocks that have advanced together.
pub proof fn law_restored_moment_keeps_its_second(before: Clock, after: Clock, epoch: i64)
    requires
        before.mono >= 0,
        epoch >= 0,
        after.mono >= before.mono,
        after.mono - before.mono == after.unix - before.unix,
        before.moment(epoch) is Some,
    ensures
        after.epoch(before.moment(epoch)->0) == epoch,
{
    let then = before.mono - (before.unix - epoch * 1_000_000_000);
    assert(i64::MIN <= then <= i64::MAX);
    assert((epoch * 1_000_000_000) / 1_000_000_000 == epoch);
}

/// A moment that lies whole seconds back is shown that many seconds before the present one, and the
/// present one as the seconds of the calendar.
pub proof fn law_moments_count_back_from_now(clock: Clock, then: i64, secs: int)
    requires
        secs >= 0,
        then == clock.mono - secs * 1_000_000_000,
        clock.unix >= secs * 1_000_000_000,
    ensures
        clock.epoch(then) == clock.unix as int / 1_000_000_000 - secs,
{
    let ago = secs * 1_000_000_000;
    assert((clock.unix - ago) / 1_000_000_000 == clock.unix as int / 1_000_000_000 - secs);
}

/// A second has a moment exactly when it has passed; that moment lies as far back as the second.
pub proof fn law_past_seconds_have_moments(clock: Clock, epoch: i64)
    requires
        clock.mono >= 0,
        epoch >= 0,
    ensures
        match clock.moment(epoch) {
            Some(then) => clock.mono - then == clock.unix - epoch * 1_000_000_000 && clock.mono
                >= then,
            None => epoch * 1_000_000_000 > clock.unix,
        },
{
    let then = clock.mono - (clock.unix - epoch * 1_000_000_000);
    if epoch * 1_000_000_000 <= clock.unix {
        assert(i64::MIN <= then <= i64::MAX);
    }
}

/// A span is not negative, and is the difference where time has passed.
pub proof fn law_elapsed_is_the_difference(then: int, span: int)
    ensures
        elapsed(then + span, then) == if span > 0 {
            span
        } else {
            0
        },
{
}

} // verus!
