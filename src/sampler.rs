//! Periodic readings of the aggregate byte counter, and the throughput
//! estimate derived from them with the ramp-up ticks discounted.
use vstd::prelude::*;

verus! {

/// Every reading is at most every later one.
pub open spec fn non_decreasing(s: Seq<u64>) -> bool {
    forall|i: int, j: int| 0 <= i <= j < s.len() ==> #[trigger] s[i] <= #[trigger] s[j]
}

/// What the counter grew by during tick `t`; the counter starts at zero.
pub open spec fn tick_delta(s: Seq<u64>, t: int) -> int {
    if t == 0 {
        s[0] as int
    } else {
        s[t] - s[t - 1]
    }
}

/// The rate reported at tick `t` with `ramp_up` warm-up ticks: up to and
/// including tick `ramp_up`, the per-tick delta; after it, the average per
/// tick since the reading at tick `ramp_up`.
pub open spec fn rate_at_tick(s: Seq<u64>, ramp_up: int, t: int) -> int {
    if t <= ramp_up {
        tick_delta(s, t)
    } else {
        (s[t] - s[ramp_up]) / (t - ramp_up)
    }
}

/// The ordered readings of one phase, one per tick.
pub struct SampleWindow {
    readings: Vec<u64>,
}

impl View for SampleWindow {
    type V = Seq<u64>;

    closed spec fn view(&self) -> Seq<u64> {
        self.readings@
    }
}

impl SampleWindow {
    pub open spec fn wf(&self) -> bool {
        non_decreasing(self@)
    }

    pub fn new() -> (r: SampleWindow)
        ensures
            r.wf(),
            r@ == Seq::<u64>::empty(),
    {
        SampleWindow { readings: Vec::new() }
    }

    pub fn len(&self) -> (r: usize)
        ensures
            r == self@.len(),
    {
        self.readings.len()
    }

    pub fn get(&self, i: usize) -> (r: u64)
        requires
            i < self@.len(),
        ensures
            r == self@[i as int],
    {
        self.readings[i]
    }

    /// Appends a reading. One below the last reading would mean that the
    /// counter went backwards: it is refused and the window is left as it was.
    pub fn push(&mut self, reading: u64) -> (accepted: bool)
        requires
            old(self).wf(),
        ensures
            final(self).wf(),
            accepted == (old(self)@.len() == 0 || old(self)@.last() <= reading),
            accepted ==> final(self)@ == old(self)@.push(reading),
            !accepted ==> final(self)@ == old(self)@,
    {
        let n = self.readings.len();
        if n > 0 && self.readings[n - 1] > reading {
            return false;
        }
        self.readings.push(reading);
        proof {
            let s = self.readings@;
            assert forall|i: int, j: int| 0 <= i <= j < s.len() implies #[trigger] s[i] <= #[trigger] s[j] by {
                if j < s.len() - 1 {
                    assert(s[i] == old(self).readings@[i]);
                    assert(s[j] == old(self).readings@[j]);
                } else if i < j {
                    assert(s[i] == old(self).readings@[i]);
                    assert(old(self).readings@[i] <= old(self).readings@[n - 1]);
                }
            }
        }
        true
    }
}

/// The readings of one phase together with its ramp-up cutoff.
pub struct RateSampler {
    window: SampleWindow,
    ramp_up: usize,
}

impl RateSampler {
    pub open spec fn wf(&self) -> bool {
        non_decreasing(self.readings())
    }

    pub closed spec fn readings(&self) -> Seq<u64> {
        self.window@
    }

    pub closed spec fn ramp_up_ticks(&self) -> nat {
        self.ramp_up as nat
    }

    /// A sampler that treats ticks `0..=ramp_up` as warm-up.
    pub fn new(ramp_up: usize) -> (r: RateSampler)
        ensures
            r.wf(),
            r.readings() == Seq::<u64>::empty(),
            r.ramp_up_ticks() == ramp_up,
    {
        RateSampler { window: SampleWindow::new(), ramp_up }
    }

    pub fn ticks(&self) -> (r: usize)
        ensures
            r == self.readings().len(),
    {
        self.window.len()
    }

    pub fn reading(&self, t: usize) -> (r: u64)
        requires
            t < self.readings().len(),
        ensures
            r == self.readings()[t as int],
    {
        self.window.get(t)
    }

    /// Records the aggregate counter read at the next tick; see
    /// [`SampleWindow::push`] for when it is refused.
    pub fn record(&mut self, aggregate: u64) -> (accepted: bool)
        requires
            old(self).wf(),
        ensures
            final(self).wf(),
            final(self).ramp_up_ticks() == old(self).ramp_up_ticks(),
            accepted == (old(self).readings().len() == 0 || old(self).readings().last() <= aggregate),
            accepted ==> final(self).readings() == old(self).readings().push(aggregate),
            !accepted ==> final(self).readings() == old(self).readings(),
    {
        self.window.push(aggregate)
    }

    /// The rate reported at tick `t`, in counter units per tick.
    pub fn rate_at(&self, t: usize) -> (r: u64)
        requires
            self.wf(),
            t < self.readings().len(),
        ensures
            r == rate_at_tick(self.readings(), self.ramp_up_ticks() as int, t as int),
    {
        let s = Ghost(self.window@);
        proof {
            if t > 0 {
                assert(s@[t - 1] <= s@[t as int]);
            }
        }
        if t <= self.ramp_up {
            if t == 0 {
                self.window.get(0)
            } else {
                self.window.get(t) - self.window.get(t - 1)
            }
        } else {
            proof {
                assert(s@[self.ramp_up as int] <= s@[t as int]);
            }
            let gained = self.window.get(t) - self.window.get(self.ramp_up);
            let elapsed = (t - self.ramp_up) as u64;
            proof {
                assert(0 <= (gained as int) / (elapsed as int) <= gained) by (nonlinear_arith)
                    requires
                        elapsed >= 1,
                ;
            }
            gained / elapsed
        }
    }

    /// The rate at the latest tick, or `None` before the first reading.
    pub fn current_rate(&self) -> (r: Option<u64>)
        requires
            self.wf(),
        ensures
            self.readings().len() == 0 ==> r is None,
            self.readings().len() > 0 ==> r == Some(
                rate_at_tick(
                    self.readings(),
                    self.ramp_up_ticks() as int,
                    self.readings().len() - 1,
                ) as u64,
            ),
            self.readings().len() > 0 ==> 0 <= rate_at_tick(
                self.readings(),
                self.ramp_up_ticks() as int,
                self.readings().len() - 1,
            ) <= u64::MAX,
    {
        let n = self.window.len();
        if n == 0 {
            None
        } else {
            Some(self.rate_at(n - 1))
        }
    }

    /// Whether any byte was counted in the phase: the latest reading is
    /// nonzero. A phase without is a failed one.
    pub fn saw_traffic(&self) -> (r: bool)
        ensures
            r == (self.readings().len() > 0 && self.readings().last() > 0),
    {
        let n = self.window.len();
        n > 0 && self.window.get(n - 1) > 0
    }
}

/// An amount per tick of `tick_millis` milliseconds as an amount per second,
/// rounded down and capped at `u64::MAX`.
pub open spec fn per_second_spec(per_tick: nat, tick_millis: nat) -> nat {
    if per_tick * 1000 / tick_millis > u64::MAX {
        u64::MAX as nat
    } else {
        per_tick * 1000 / tick_millis
    }
}

/// Converts an amount per tick into an amount per second, for a tick of
/// `tick_millis` milliseconds (rounded down).
pub fn per_second(per_tick: u64, tick_millis: u64) -> (r: u64)
    requires
        tick_millis > 0,
    ensures
        r == per_second_spec(per_tick as nat, tick_millis as nat),
{
    let v: u128 = (per_tick as u128) * 1000 / (tick_millis as u128);
    if v > u64::MAX as u128 {
        u64::MAX
    } else {
        v as u64
    }
}

/// Sum of the per-worker counters.
pub open spec fn counter_sum(c: Seq<u64>) -> nat
    decreases c.len(),
{
    if c.len() == 0 {
        0
    } else {
        counter_sum(c.drop_last()) + c.last() as nat
    }
}

/// Sum of the per-worker counters, or `None` when it does not fit in `u64`.
pub fn aggregate(counters: &Vec<u64>) -> (r: Option<u64>)
    ensures
        counter_sum(counters@) <= u64::MAX ==> r == Some(counter_sum(counters@) as u64),
        counter_sum(counters@) > u64::MAX ==> r is None,
{
    let mut total: u64 = 0;
    let mut i: usize = 0;
    while i < counters.len()
        invariant
            i <= counters@.len(),
            total == counter_sum(counters@.subrange(0, i as int)),
        decreases counters@.len() - i,
    {
        proof {
            assert(counters@.subrange(0, i + 1).drop_last() =~= counters@.subrange(0, i as int));
        }
        if total > u64::MAX - counters[i] {
            proof {
                lemma_counter_sum_prefix(counters@, i + 1);
            }
            return None;
        }
        total = total + counters[i];
        i = i + 1;
    }
    proof {
        assert(counters@.subrange(0, i as int) =~= counters@);
    }
    Some(total)
}

/// A prefix never sums to more than the whole.
pub proof fn lemma_counter_sum_prefix(c: Seq<u64>, k: int)
    requires
        0 <= k <= c.len(),
    ensures
        counter_sum(c.subrange(0, k)) <= counter_sum(c),
    decreases c.len(),
{
    if k < c.len() {
        assert(c.drop_last().subrange(0, k) =~= c.subrange(0, k));
        lemma_counter_sum_prefix(c.drop_last(), k);
    } else {
        assert(c.subrange(0, k) =~= c);
    }
}

/// The readings of a well-formed window never decrease, whatever was
/// pushed into it.
pub proof fn lemma_window_ordered(w: SampleWindow, i: int, j: int)
    requires
        w.wf(),
        0 <= i <= j < w@.len(),
    ensures
        w@[i] <= w@[j],
{
}

/// At the tick where the ramp-up ends the rate is the per-tick delta, never
/// the average since that tick (which would divide by zero).
pub proof fn lemma_ramp_up_boundary(s: Seq<u64>, ramp_up: int)
    requires
        0 <= ramp_up < s.len(),
    ensures
        rate_at_tick(s, ramp_up, ramp_up) == tick_delta(s, ramp_up),
{
}

/// A counter that grows by exactly `per_tick` every tick is reported at
/// exactly `per_tick` on every tick, before and after the ramp-up.
pub proof fn lemma_steady_rate(s: Seq<u64>, ramp_up: int, per_tick: nat, t: int)
    requires
        0 <= ramp_up,
        0 <= t < s.len(),
        forall|i: int| 0 <= i < s.len() ==> #[trigger] s[i] == (i + 1) * per_tick,
    ensures
        rate_at_tick(s, ramp_up, t) == per_tick,
{
    if t > ramp_up {
        let d = t - ramp_up;
        assert(s[t] - s[ramp_up] == d * per_tick) by (nonlinear_arith)
            requires
                s[t] == (t + 1) * per_tick,
                s[ramp_up] == (ramp_up + 1) * per_tick,
                d == t - ramp_up,
        ;
        assert((d * per_tick) / d == per_tick) by (nonlinear_arith)
            requires
                d > 0,
        ;
    } else if t > 0 {
        assert(s[t] - s[t - 1] == per_tick) by (nonlinear_arith)
            requires
                s[t] == (t + 1) * per_tick,
                s[t - 1] == t * per_tick,
        ;
    }
}

} // verus!
