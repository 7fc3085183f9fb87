//! Progress of a job that is done in a known number of steps.

use vstd::prelude::*;

verus! {

/// What one tick of a [`Timer`] reports.
#[derive(Clone, Copy, Debug, PartialEq, Eq, Structural)]
pub struct Tick {
    /// The whole percentage of the job that was done before this tick.
    pub percent: u8,
    /// Whether this tick used up the last of the time.
    pub done: bool,
}

/// A countdown over `period` units of work, `delta` of which go by per tick.
///
/// The timer reports and leaves the reporting to its owner: a tick hands
/// back what there is to say, and whoever drives the timer says it.
#[derive(Clone, Copy, Debug)]
pub struct Timer {
    period: usize,
    delta: usize,
    time_left: usize,
}

/// The whole percentage of `period` that has gone by when `time_left` of it
/// remains: the quotient, rounded down.
pub open spec fn percent_done(period: nat, time_left: nat) -> nat
    recommends
        0 < period,
        time_left <= period,
{
    ((period - time_left) * 100 / (period as int)) as nat
}

impl Timer {
    #[verifier::type_invariant]
    spec fn within_period(self) -> bool {
        self.time_left <= self.period
    }

    /// The units of work in the whole job.
    pub closed spec fn spec_period(&self) -> usize {
        self.period
    }

    /// The units of work that go by per tick.
    pub closed spec fn spec_delta(&self) -> usize {
        self.delta
    }

    /// The units of work still to be done.
    pub closed spec fn spec_time_left(&self) -> usize {
        self.time_left
    }

    /// The units of work in the whole job.
    #[verifier::when_used_as_spec(spec_period)]
    pub fn period(&self) -> (n: usize)
        ensures
            n == self.spec_period(),
    {
        self.period
    }

    /// The units of work that go by per tick.
    #[verifier::when_used_as_spec(spec_delta)]
    pub fn delta(&self) -> (n: usize)
        ensures
            n == self.spec_delta(),
    {
        self.delta
    }

    /// The units of work still to be done; never more than the period.
    #[verifier::when_used_as_spec(spec_time_left)]
    pub fn time_left(&self) -> (n: usize)
        ensures
            n == self.spec_time_left(),
            n <= self.spec_period(),
    {
        proof {
            use_type_invariant(self);
        }
        self.time_left
    }

    /// A timer for a job of `period` units, `delta` per tick. It starts run
    /// down, with no time left, until it is wound up.
    pub fn new(period: usize, delta: usize) -> (t: Timer)
        ensures
            t.period() == period,
            t.delta() == delta,
            t.time_left() == 0,
    {
        Timer { period, delta, time_left: 0 }
    }

    /// Sets the timer to the start of the job.
    pub fn wind_up(&mut self)
        ensures
            final(self).period() == old(self).period(),
            final(self).delta() == old(self).delta(),
            final(self).time_left() == old(self).period(),
    {
        self.time_left = self.period;
    }

    /// Lets one step of the job go by. The report tells how much of the job
    /// was done before this step, and whether the step was the last.
    ///
    /// The job must have a length, and a full step of it must be left.
    pub fn tick(&mut self) -> (t: Tick)
        requires
            old(self).period() > 0,
            old(self).delta() <= old(self).time_left(),
        ensures
            final(self).period() == old(self).period(),
            final(self).delta() == old(self).delta(),
            final(self).time_left() == old(self).time_left() - old(self).delta(),
            t.percent == percent_done(old(self).period() as nat, old(self).time_left() as nat),
            t.done == (final(self).time_left() == 0),
    {
        proof {
            use_type_invariant(&*self);
        }
        let done: u128 = (self.period - self.time_left) as u128;
        let whole: u128 = self.period as u128;
        proof {
            lemma_percent_bounds(self.period as nat, self.time_left as nat);
        }
        let percent: u128 = done * 100 / whole;
        self.time_left = self.time_left - self.delta;
        Tick { percent: percent as u8, done: self.time_left == 0 }
    }
}

/// The percentage runs from 0 to 100, and reaches 100 exactly when no time
/// is left.
pub proof fn lemma_percent_bounds(period: nat, time_left: nat)
    requires
        0 < period,
        time_left <= period,
    ensures
        percent_done(period, time_left) <= 100,
        percent_done(period, time_left) == 100 <==> time_left == 0,
        time_left == period ==> percent_done(period, time_left) == 0,
{
    let done = (period - time_left) as int;
    let p = period as int;
    assert(done * 100 / p <= 100 && (done * 100 / p == 100 <==> done == p) && 0 <= done * 100 / p
        && (done == 0 ==> done * 100 / p == 0)) by (nonlinear_arith)
        requires
            0 <= done <= p,
            0 < p,
    ;
}

/// The percentage never falls as time runs out.
pub proof fn lemma_percent_rises(period: nat, earlier: nat, later: nat)
    requires
        0 < period,
        later <= earlier <= period,
    ensures
        percent_done(period, earlier) <= percent_done(period, later),
{
    let a = (period - earlier) as int;
    let b = (period - later) as int;
    let p = period as int;
    assert(a * 100 / p <= b * 100 / p) by (nonlinear_arith)
        requires
            0 <= a <= b,
            0 < p,
    ;
}

/// The percentage is the true one rounded down: it is the largest whole
/// number `q` for which `q` hundredths of the period have gone by.
pub proof fn lemma_percent_is_floor(period: nat, time_left: nat)
    requires
        0 < period,
        time_left <= period,
    ensures
        percent_done(period, time_left) * period <= (period - time_left) * 100,
        (period - time_left) * 100 < (percent_done(period, time_left) + 1) * period,
{
    let done = (period - time_left) as int;
    let p = period as int;
    assert((done * 100 / p) * p <= done * 100 && done * 100 < (done * 100 / p + 1) * p && 0 <= done
        * 100 / p) by (nonlinear_arith)
        requires
            0 <= done,
            0 < p,
    ;
}

} // verus!
