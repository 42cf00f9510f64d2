//! How long to wait before another attempt.
use vstd::prelude::*;

verus! {

/// No wait is longer than this, in nanoseconds.
pub const LONGEST_WAIT: u64 = 30_000_000_000;

/// A wait that is half as long again after each failure, up to [`LONGEST_WAIT`].
#[derive(Debug, Clone, Copy)]
pub struct Backoff {
    first: u64,
    next: u64,
}

/// The wait that follows one of `nanos` nanoseconds.
pub open spec fn longer(nanos: int) -> int {
    if nanos + nanos / 2 < LONGEST_WAIT {
        nanos + nanos / 2
    } else {
        LONGEST_WAIT as int
    }
}

/// The wait after `failures` failures in a row, where the first one is of `first` nanoseconds.
pub open spec fn wait_after(first: int, failures: nat) -> int
    decreases failures,
{
    if failures == 0 {
        first
    } else {
        longer(wait_after(first, (failures - 1) as nat))
    }
}

impl Backoff {
    #[verifier::type_invariant]
    spec fn well_formed(self) -> bool {
        self.first <= LONGEST_WAIT && self.next <= LONGEST_WAIT
    }

    /// The first wait, in nanoseconds.
    pub closed spec fn first(self) -> int {
        self.first as int
    }

    /// The next wait, in nanoseconds.
    pub closed spec fn next(self) -> int {
        self.next as int
    }

    /// Waits that begin with `seconds` seconds.
    pub fn starting_with(seconds: u64) -> (r: Self)
        requires
            seconds <= 30,
        ensures
            r.first() == seconds * 1_000_000_000,
            r.next() == r.first(),
    {
        let nanos: u64 = seconds * 1_000_000_000;
        Backoff { first: nanos, next: nanos }
    }

    /// The next wait, in nanoseconds.
    pub fn nanos(&self) -> (r: u64)
        ensures
            r == self.next(),
            r <= LONGEST_WAIT,
    {
        proof {
            use_type_invariant(self);
        }
        self.next
    }

    /// An attempt succeeded: the waits begin again.
    pub fn reset(&mut self)
        ensures
            final(self).first() == old(self).first(),
            final(self).next() == old(self).first(),
    {
        proof {
            use_type_invariant(&*self);
        }
        self.next = self.first;
    }

    /// An attempt failed: the wait after it is longer.
    pub fn lengthen(&mut self)
        ensures
            final(self).first() == old(self).first(),
            final(self).next() == longer(old(self).next()),
    {
        proof {
            use_type_invariant(&*self);
        }
        let longer: u64 = self.next + self.next / 2;
        self.next = if longer < LONGEST_WAIT {
            longer
        } else {
            LONGEST_WAIT
        };
    }
}

/// However many attempts fail, the waits never get shorter and never exceed the longest one.
pub proof fn law_waits_grow_to_the_longest(first: int, failures: nat)
    requires
        0 <= first <= LONGEST_WAIT,
    ensures
        first <= wait_after(first, failures) <= wait_after(first, failures + 1) <= LONGEST_WAIT,
        wait_after(first, failures) < LONGEST_WAIT && first >= 2 ==> wait_after(first, failures)
            < wait_after(first, failures + 1),
    decreases failures,
{
    if failures > 0 {
        law_waits_grow_to_the_longest(first, (failures - 1) as nat);
    }
}

/// Where the first wait is a second or more, the tenth one is the longest, and so are all after it.
pub proof fn law_longest_wait_is_reached(first: int, failures: nat)
    requires
        1_000_000_000 <= first <= LONGEST_WAIT,
        failures >= 9,
    ensures
        wait_after(first, failures) == LONGEST_WAIT,
    decreases failures,
{
    law_waits_grow_to_the_longest(first, failures);
    if failures > 9 {
        law_longest_wait_is_reached(first, (failures - 1) as nat);
    } else {
        reveal_with_fuel(wait_after, 10);
        assert(wait_after(first, 1) >= 1_500_000_000);
        assert(wait_after(first, 2) >= 2_250_000_000);
        assert(wait_after(first, 3) >= 3_375_000_000);
        assert(wait_after(first, 4) >= 5_062_500_000);
        assert(wait_after(first, 5) >= 7_593_750_000);
        assert(wait_after(first, 6) >= 11_390_625_000);
        assert(wait_after(first, 7) >= 17_085_937_500);
        assert(wait_after(first, 8) >= 25_628_906_250);
    }
}

/// A wait is followed by one that is half as long again, or by one of thirty seconds where that is
/// shorter. Waits begin with as many seconds as was said.
pub proof fn law_waits_are_half_as_long_again(
    nanos: int,
    seconds: u64,
    backoff: Backoff,
    first: u64,
)
    requires
        nanos >= 0,
        call_ensures(Backoff::starting_with, (seconds,), backoff),
        call_ensures(Backoff::nanos, (&backoff,), first),
    ensures
        LONGEST_WAIT == 30 * 1_000_000_000,
        longer(nanos) <= 30 * 1_000_000_000,
        2 * longer(nanos) <= 3 * nanos || longer(nanos) == 30 * 1_000_000_000,
        longer(nanos) < 30 * 1_000_000_000 ==> 2 * longer(nanos) > 3 * nanos - 2,
        3 * nanos >= 60 * 1_000_000_000 ==> longer(nanos) == 30 * 1_000_000_000,
        3 * nanos < 60 * 1_000_000_000 ==> 2 * longer(nanos) <= 3 * nanos,
        first == seconds * 1_000_000_000,
{
}

/// A failure makes the next wait half as long again, up to thirty seconds, and a success makes it the
/// first one again.
pub proof fn law_failures_lengthen_and_successes_reset(failed: &mut Backoff, succeeded: &mut Backoff)
    requires
        call_ensures(Backoff::lengthen, (failed,), ()),
        call_ensures(Backoff::reset, (succeeded,), ()),
        old(failed).next() >= 0,
    ensures
        final(failed).first() == old(failed).first(),
        ({
            let nanos = old(failed).next();
            &&& nanos + nanos / 2 <= 30_000_000_000 ==> final(failed).next() == nanos + nanos / 2
            &&& nanos + nanos / 2 > 30_000_000_000 ==> final(failed).next() == 30_000_000_000
        }),
        final(succeeded).next() == old(succeeded).first(),
        final(succeeded).first() == old(succeeded).first(),
{
}

} // verus!
