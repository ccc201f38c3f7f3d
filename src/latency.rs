//! Round-trip samples of a latency probe and their reductions: minimum,
//! mean deviation from the minimum (jitter), and the trimmed variants that
//! leave out the single highest and lowest sample.
use vstd::prelude::*;

verus! {

/// Recorded in place of a sample that timed out or could not connect, in
/// microseconds.
pub const TIMEOUT_SENTINEL: u64 = 10_000_000;

/// The most samples one probe holds.
pub const MAX_SAMPLES: usize = 20;

/// A sample that measured something (not the sentinel).
pub open spec fn is_ok(v: u64) -> bool {
    v < TIMEOUT_SENTINEL
}

pub open spec fn ok_count(s: Seq<u64>) -> nat
    decreases s.len(),
{
    if s.len() == 0 {
        0
    } else {
        ok_count(s.drop_last()) + if is_ok(s.last()) {
            1nat
        } else {
            0nat
        }
    }
}

pub open spec fn ok_sum(s: Seq<u64>) -> nat
    decreases s.len(),
{
    if s.len() == 0 {
        0
    } else {
        ok_sum(s.drop_last()) + if is_ok(s.last()) {
            s.last() as nat
        } else {
            0nat
        }
    }
}

/// The least successful sample; the sentinel when there is none.
pub open spec fn ok_min(s: Seq<u64>) -> nat
    decreases s.len(),
{
    if s.len() == 0 {
        TIMEOUT_SENTINEL as nat
    } else {
        let m = ok_min(s.drop_last());
        if is_ok(s.last()) && (s.last() as nat) < m {
            s.last() as nat
        } else {
            m
        }
    }
}

/// The greatest successful sample; zero when there is none.
pub open spec fn ok_max(s: Seq<u64>) -> nat
    decreases s.len(),
{
    if s.len() == 0 {
        0
    } else {
        let m = ok_max(s.drop_last());
        if is_ok(s.last()) && (s.last() as nat) > m {
            s.last() as nat
        } else {
            m
        }
    }
}

/// Sum over the successful samples of their distance above `base`.
pub open spec fn deviation_sum(s: Seq<u64>, base: nat) -> int
    decreases s.len(),
{
    if s.len() == 0 {
        0
    } else {
        deviation_sum(s.drop_last(), base) + if is_ok(s.last()) {
            s.last() - base
        } else {
            0
        }
    }
}

/// A mean held exactly, as a total and a positive count.
#[derive(Clone, Copy, Debug, PartialEq, Eq, Structural)]
pub struct Average {
    pub total: u64,
    pub count: u64,
}

impl Average {
    /// The mean rounded down.
    pub fn floor(&self) -> (r: u64)
        requires
            self.count > 0,
        ensures
            r == self.total / self.count,
    {
        self.total / self.count
    }

    /// The mean in thousandths, rounded down.
    pub fn thousandths(&self) -> (r: u64)
        requires
            self.count > 0,
            self.total <= u64::MAX / 1000,
        ensures
            r == self.total * 1000 / self.count as int,
    {
        self.total * 1000 / self.count
    }
}

/// Mean distance of the successful samples above their minimum, over all of
/// them; `None` when no sample succeeded.
pub open spec fn mean_deviation_spec(s: Seq<u64>) -> Option<Average> {
    if ok_count(s) == 0 {
        None
    } else {
        Some(
            Average {
                total: deviation_sum(s, ok_min(s)) as u64,
                count: ok_count(s) as u64,
            },
        )
    }
}

/// As [`mean_deviation_spec`], but with three or more successful samples the
/// highest and the lowest are left out of both the total and the count.
pub open spec fn trimmed_deviation_spec(s: Seq<u64>) -> Option<Average> {
    if ok_count(s) < 3 {
        mean_deviation_spec(s)
    } else {
        Some(
            Average {
                total: (deviation_sum(s, ok_min(s)) - (ok_max(s) - ok_min(s))) as u64,
                count: (ok_count(s) - 2) as u64,
            },
        )
    }
}

/// Mean of the successful samples; with three or more of them the highest
/// and the lowest are left out.
pub open spec fn trimmed_mean_spec(s: Seq<u64>) -> Option<Average> {
    if ok_count(s) == 0 {
        None
    } else if ok_count(s) < 3 {
        Some(Average { total: ok_sum(s) as u64, count: ok_count(s) as u64 })
    } else {
        Some(
            Average {
                total: (ok_sum(s) - ok_max(s) - ok_min(s)) as u64,
                count: (ok_count(s) - 2) as u64,
            },
        )
    }
}

/// The value stored for a probe outcome: the measured time, or the sentinel
/// for a failure or a time at or above it.
pub open spec fn stored_sample(sample: Option<u64>) -> u64 {
    match sample {
        Some(v) => if v < TIMEOUT_SENTINEL {
            v
        } else {
            TIMEOUT_SENTINEL
        },
        None => TIMEOUT_SENTINEL,
    }
}

/// The samples of one latency probe, in the order taken.
pub struct LatencySamples {
    values: Vec<u64>,
}

impl View for LatencySamples {
    type V = Seq<u64>;

    closed spec fn view(&self) -> Seq<u64> {
        self.values@
    }
}

impl LatencySamples {
    pub open spec fn wf(&self) -> bool {
        &&& self@.len() <= MAX_SAMPLES
        &&& forall|i: int| 0 <= i < self@.len() ==> #[trigger] self@[i] <= TIMEOUT_SENTINEL
    }

    pub fn new() -> (r: LatencySamples)
        ensures
            r.wf(),
            r@ == Seq::<u64>::empty(),
    {
        LatencySamples { values: Vec::new() }
    }

    pub fn len(&self) -> (r: usize)
        ensures
            r == self@.len(),
    {
        self.values.len()
    }

    /// Records one probe outcome: `Some` time in microseconds, or `None` for
    /// a timeout or a refused connection. Refused once the probe is full.
    pub fn record(&mut self, sample: Option<u64>) -> (accepted: bool)
        requires
            old(self).wf(),
        ensures
            final(self).wf(),
            accepted == (old(self)@.len() < MAX_SAMPLES),
            accepted ==> final(self)@ == old(self)@.push(stored_sample(sample)),
            !accepted ==> final(self)@ == old(self)@,
    {
        if self.values.len() >= MAX_SAMPLES {
            return false;
        }
        let v = match sample {
            Some(v) => if v < TIMEOUT_SENTINEL {
                v
            } else {
                TIMEOUT_SENTINEL
            },
            None => TIMEOUT_SENTINEL,
        };
        self.values.push(v);
        proof {
            assert forall|i: int| 0 <= i < self.values@.len() implies #[trigger] self.values@[i]
                <= TIMEOUT_SENTINEL by {
                if i < old(self).values@.len() {
                    assert(self.values@[i] == old(self).values@[i]);
                }
            }
        }
        true
    }

    /// One pass over the samples: count, sum, minimum and maximum of the
    /// successful ones.
    fn tally(&self) -> (r: (u64, u64, u64, u64))
        requires
            self.wf(),
        ensures
            r.0 == ok_count(self@),
            r.1 == ok_sum(self@),
            r.2 == ok_min(self@),
            r.3 == ok_max(self@),
            r.0 <= MAX_SAMPLES,
            r.1 <= r.0 * TIMEOUT_SENTINEL,
    {
        let mut count: u64 = 0;
        let mut sum: u64 = 0;
        let mut min: u64 = TIMEOUT_SENTINEL;
        let mut max: u64 = 0;
        let mut i: usize = 0;
        while i < self.values.len()
            invariant
                self.wf(),
                i <= self.values@.len(),
                count == ok_count(self.values@.subrange(0, i as int)),
                sum == ok_sum(self.values@.subrange(0, i as int)),
                min == ok_min(self.values@.subrange(0, i as int)),
                max == ok_max(self.values@.subrange(0, i as int)),
                count <= i,
                sum <= count * TIMEOUT_SENTINEL,
            decreases self.values@.len() - i,
        {
            let v = self.values[i];
            proof {
                assert(self.values@.subrange(0, i + 1).drop_last() =~= self.values@.subrange(0, i as int));
            }
            if v < TIMEOUT_SENTINEL {
                count = count + 1;
                sum = sum + v;
                if v < min {
                    min = v;
                }
                if v > max {
                    max = v;
                }
            }
            i = i + 1;
        }
        proof {
            assert(self.values@.subrange(0, i as int) =~= self.values@);
        }
        (count, sum, min, max)
    }

    /// Least successful sample (min-of-N), or `None` when every sample is the
    /// sentinel or none was taken: the probe failed.
    pub fn min_of_n(&self) -> (r: Option<u64>)
        requires
            self.wf(),
        ensures
            ok_count(self@) == 0 ==> r is None,
            ok_count(self@) > 0 ==> r == Some(ok_min(self@) as u64),
    {
        let (count, _sum, min, _max) = self.tally();
        if count == 0 {
            None
        } else {
            Some(min)
        }
    }

    /// Mean distance of the successful samples above their minimum (jitter).
    pub fn mean_deviation(&self) -> (r: Option<Average>)
        requires
            self.wf(),
        ensures
            r == mean_deviation_spec(self@),
    {
        let (count, sum, min, max) = self.tally();
        if count == 0 {
            return None;
        }
        proof {
            lemma_tally_bounds(self@);
            lemma_deviation_sum(self@, min as nat);
            assert(count * min <= sum) by (nonlinear_arith)
                requires
                    sum >= max + (count - 1) * min,
                    max >= min,
                    count >= 1,
            ;
        }
        Some(Average { total: sum - count * min, count })
    }

    /// Jitter with the single highest and lowest successful sample left out
    /// when three or more succeeded.
    pub fn trimmed_deviation(&self) -> (r: Option<Average>)
        requires
            self.wf(),
        ensures
            r == trimmed_deviation_spec(self@),
    {
        let (count, sum, min, max) = self.tally();
        if count < 3 {
            return self.mean_deviation();
        }
        proof {
            lemma_tally_bounds(self@);
            lemma_deviation_sum(self@, min as nat);
            assert(count * min <= sum) by (nonlinear_arith)
                requires
                    sum >= max + (count - 1) * min,
                    max >= min,
                    count >= 1,
            ;
        }
        proof {
            assert(sum - count * min >= max - min) by (nonlinear_arith)
                requires
                    sum >= max + (count - 1) * min,
            ;
        }
        Some(Average { total: (sum - count * min) - (max - min), count: count - 2 })
    }

    /// Mean of the successful samples with the highest and lowest left out
    /// when three or more succeeded.
    pub fn trimmed_mean(&self) -> (r: Option<Average>)
        requires
            self.wf(),
        ensures
            r == trimmed_mean_spec(self@),
    {
        let (count, sum, min, max) = self.tally();
        if count == 0 {
            None
        } else if count < 3 {
            Some(Average { total: sum, count })
        } else {
            proof {
                lemma_tally_bounds(self@);
                assert(sum >= max + min) by (nonlinear_arith)
                    requires
                        sum >= max + (count - 1) * min,
                        count >= 3,
                ;
            }
            Some(Average { total: sum - max - min, count: count - 2 })
        }
    }
}

/// With no successful sample the reductions have nothing to work on; with
/// some, the minimum is at most the maximum, both are successful values, and
/// the sum is at least the maximum plus the minimum for each other sample.
pub proof fn lemma_tally_bounds(s: Seq<u64>)
    ensures
        ok_count(s) == 0 ==> ok_sum(s) == 0 && ok_max(s) == 0 && ok_min(s) == TIMEOUT_SENTINEL,
        ok_count(s) > 0 ==> ok_min(s) <= ok_max(s) < TIMEOUT_SENTINEL,
        ok_count(s) > 0 ==> ok_sum(s) >= ok_max(s) + (ok_count(s) - 1) * ok_min(s),
        ok_count(s) <= s.len(),
    decreases s.len(),
{
    if s.len() > 0 {
        let p = s.drop_last();
        let x = s.last() as nat;
        lemma_tally_bounds(p);
        if is_ok(s.last()) {
            let c = ok_count(p);
            assert(ok_count(s) == c + 1);
            assert(ok_sum(s) == ok_sum(p) + x);
            if c == 0 {
                assert(ok_min(s) == x);
                assert(ok_max(s) == x);
                let k = ok_count(s);
                let m = ok_min(s);
                assert((k - 1) * m == 0) by (nonlinear_arith)
                    requires
                        k == 1,
                ;
            } else {
                let mn = ok_min(p);
                let mx = ok_max(p);
                let sm = ok_sum(p);
                let new_min = ok_min(s);
                assert(new_min <= mn);
                assert(new_min <= x);
                assert(sm + x >= ok_max(s) + c * new_min) by (nonlinear_arith)
                    requires
                        sm >= mx + (c - 1) * mn,
                        mn <= mx,
                        new_min <= mn,
                        new_min <= x,
                        c >= 1,
                        ok_max(s) == if x > mx {
                            x
                        } else {
                            mx
                        },
                ;
            }
        } else {
            assert(ok_count(s) == ok_count(p));
            assert(ok_sum(s) == ok_sum(p));
            assert(ok_min(s) == ok_min(p));
            assert(ok_max(s) == ok_max(p));
        }
    }
}

/// The deviation sum is the sum less the base for each successful sample.
pub proof fn lemma_deviation_sum(s: Seq<u64>, base: nat)
    ensures
        deviation_sum(s, base) == ok_sum(s) - ok_count(s) * base,
    decreases s.len(),
{
    if s.len() > 0 {
        let p = s.drop_last();
        lemma_deviation_sum(p, base);
        let c = ok_count(p);
        if is_ok(s.last()) {
            assert(ok_count(s) == c + 1);
            assert(ok_sum(s) == ok_sum(p) + s.last());
            assert(deviation_sum(s, base) == deviation_sum(p, base) + s.last() - base);
            let k = ok_count(s);
            assert(k * base == c * base + base) by (nonlinear_arith)
                requires
                    k == c + 1,
            ;
        } else {
            assert(ok_count(s) == c);
            assert(ok_sum(s) == ok_sum(p));
            assert(deviation_sum(s, base) == deviation_sum(p, base));
        }
    } else {
        let k = ok_count(s);
        assert(k == 0);
        assert(k * base == 0) by (nonlinear_arith)
            requires
                k == 0,
        ;
    }
}

} // verus!
