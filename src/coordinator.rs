//! Shared state of one throughput phase: a rendezvous of all workers and the
//! coordinator, a stop signal that is never reset, and one byte counter per
//! worker. Workers only count once everyone has arrived and stop counting as
//! soon as the signal is set.
use vstd::prelude::*;
use crate::sampler::counter_sum;

verus! {

/// The broadcast cell that tells workers whether to keep transferring.
#[derive(Clone, Copy, Debug, PartialEq, Eq, Structural)]
pub enum StopSignal {
    Running,
    Stop,
}

/// What a worker does after reporting a transfer.
#[derive(Clone, Copy, Debug, PartialEq, Eq, Structural)]
pub enum WorkerAction {
    /// Perform the next read or write.
    Continue,
    /// Leave the I/O loop.
    Exit,
}

/// Number of `true` entries.
pub open spec fn count_true(s: Seq<bool>) -> nat
    decreases s.len(),
{
    if s.len() == 0 {
        0
    } else {
        count_true(s.drop_last()) + if s.last() {
            1nat
        } else {
            0nat
        }
    }
}

/// The state of a phase as a mathematical value.
pub struct PoolState {
    pub arrived: Seq<bool>,
    pub coordinator_arrived: bool,
    pub counts: Seq<u64>,
    pub exited: Seq<bool>,
    pub stopped: bool,
}

/// Every worker and the coordinator have reached the rendezvous.
pub open spec fn released(s: PoolState) -> bool {
    &&& s.coordinator_arrived
    &&& forall|i: int| 0 <= i < s.arrived.len() ==> #[trigger] s.arrived[i]
}

/// The phase state shared by the coordinator and its workers.
pub struct WorkerPool {
    arrived: Vec<bool>,
    coordinator_arrived: bool,
    waiting: usize,
    counts: Vec<u64>,
    exited: Vec<bool>,
    total: u64,
    signal: StopSignal,
}

impl View for WorkerPool {
    type V = PoolState;

    closed spec fn view(&self) -> PoolState {
        PoolState {
            arrived: self.arrived@,
            coordinator_arrived: self.coordinator_arrived,
            counts: self.counts@,
            exited: self.exited@,
            stopped: self.signal == StopSignal::Stop,
        }
    }
}

impl WorkerPool {
    pub closed spec fn wf(&self) -> bool {
        &&& self.counts@.len() == self.arrived@.len()
        &&& self.exited@.len() == self.arrived@.len()
        &&& self.waiting == (self.arrived@.len() - count_true(self.arrived@)) + if self.coordinator_arrived {
            0int
        } else {
            1int
        }
        &&& self.total == counter_sum(self.counts@)
        &&& !released(self@) ==> forall|i: int| 0 <= i < self.counts@.len() ==> #[trigger] self.counts@[i] == 0
    }

    proof fn lemma_waiting(&self)
        requires
            self.wf(),
        ensures
            released(self@) == (self.waiting == 0),
            count_true(self.arrived@) <= self.arrived@.len(),
            self@.arrived == self.arrived@,
            self@.coordinator_arrived == self.coordinator_arrived,
            self@.counts == self.counts@,
            self@.exited == self.exited@,
    {
        lemma_count_true_full(self.arrived@);
        assert(self@.arrived == self.arrived@);
    }

    pub open spec fn workers(&self) -> nat {
        self@.arrived.len()
    }

    /// There is one counter and one exit flag per worker.
    pub open spec fn shape_ok(&self) -> bool {
        &&& self@.counts.len() == self.workers()
        &&& self@.exited.len() == self.workers()
    }

    /// A well-formed pool has one counter and one exit flag per worker.
    pub proof fn lemma_shape(&self)
        requires
            self.wf(),
        ensures
            self.shape_ok(),
    {
        self.lemma_waiting();
    }

    /// A phase for `thread_count` workers: a rendezvous of `thread_count + 1`
    /// parties, nobody arrived, the signal at `Running`, all counters zero.
    pub fn new(thread_count: usize) -> (r: WorkerPool)
        requires
            thread_count < usize::MAX,
        ensures
            r.wf(),
            r.shape_ok(),
            r.workers() == thread_count,
            r@.arrived == Seq::new(thread_count as nat, |i: int| false),
            !r@.coordinator_arrived,
            r@.counts == Seq::new(thread_count as nat, |i: int| 0u64),
            r@.exited == Seq::new(thread_count as nat, |i: int| false),
            !r@.stopped,
    {
        let mut arrived: Vec<bool> = Vec::new();
        let mut counts: Vec<u64> = Vec::new();
        let mut exited: Vec<bool> = Vec::new();
        let mut i: usize = 0;
        while i < thread_count
            invariant
                i <= thread_count,
                arrived@ == Seq::new(i as nat, |j: int| false),
                counts@ == Seq::new(i as nat, |j: int| 0u64),
                exited@ == Seq::new(i as nat, |j: int| false),
                count_true(arrived@) == 0,
                counter_sum(counts@) == 0,
            decreases thread_count - i,
        {
            arrived.push(false);
            counts.push(0);
            exited.push(false);
            proof {
                assert(arrived@.drop_last() =~= Seq::new(i as nat, |j: int| false));
                assert(counts@.drop_last() =~= Seq::new(i as nat, |j: int| 0u64));
            }
            i = i + 1;
            proof {
                assert(arrived@ =~= Seq::new(i as nat, |j: int| false));
                assert(counts@ =~= Seq::new(i as nat, |j: int| 0u64));
                assert(exited@ =~= Seq::new(i as nat, |j: int| false));
            }
        }
        WorkerPool {
            arrived,
            coordinator_arrived: false,
            waiting: thread_count + 1,
            counts,
            exited,
            total: 0,
            signal: StopSignal::Running,
        }
    }

    /// Whether every worker and the coordinator have arrived.
    pub fn is_released(&self) -> (r: bool)
        requires
            self.wf(),
        ensures
            r == released(self@),
    {
        proof {
            self.lemma_waiting();
        }
        self.waiting == 0
    }

    /// Whether the stop signal has been set.
    pub fn is_stopped(&self) -> (r: bool)
        ensures
            r == self@.stopped,
    {
        self.signal == StopSignal::Stop
    }

    pub fn signal(&self) -> (r: StopSignal)
        ensures
            r == StopSignal::Stop <==> self@.stopped,
    {
        self.signal
    }

    /// Worker `i` has finished its connection setup (and, for uploads, its
    /// handshake) and reached the rendezvous. Returns whether everyone has now
    /// arrived.
    pub fn arrive(&mut self, i: usize) -> (all_arrived: bool)
        requires
            old(self).wf(),
            i < old(self).workers(),
        ensures
            final(self).wf(),
            final(self).shape_ok(),
            final(self).workers() == old(self).workers(),
            final(self)@ == (PoolState { arrived: old(self)@.arrived.update(i as int, true), ..old(self)@ }),
            all_arrived == released(final(self)@),
    {
        proof {
            self.lemma_waiting();
        }
        if !self.arrived[i] {
            proof {
                lemma_count_true_set(self.arrived@, i as int);
            }
            self.arrived.set(i, true);
            self.waiting = self.waiting - 1;
        } else {
            proof {
                assert(self.arrived@.update(i as int, true) =~= self.arrived@);
            }
        }
        proof {
            self.lemma_waiting();
        }
        self.waiting == 0
    }

    /// The coordinator has reached the rendezvous. Returns whether everyone
    /// has now arrived.
    pub fn coordinator_arrive(&mut self) -> (all_arrived: bool)
        requires
            old(self).wf(),
        ensures
            final(self).wf(),
            final(self).shape_ok(),
            final(self).workers() == old(self).workers(),
            final(self)@ == (PoolState { coordinator_arrived: true, ..old(self)@ }),
            all_arrived == released(final(self)@),
    {
        proof {
            self.lemma_waiting();
        }
        if !self.coordinator_arrived {
            self.coordinator_arrived = true;
            self.waiting = self.waiting - 1;
        }
        proof {
            self.lemma_waiting();
        }
        self.waiting == 0
    }

    /// Worker `i` transferred `bytes` in one I/O call. The bytes are counted
    /// only after the rendezvous released, while the signal is `Running` and
    /// the worker has not exited; the total saturates at `u64::MAX`. Before
    /// the release nothing changes; after it, once `Stop` is set, the worker
    /// is told to exit and nothing more is counted.
    pub fn record(&mut self, i: usize, bytes: u64) -> (action: WorkerAction)
        requires
            old(self).wf(),
            i < old(self).workers(),
        ensures
            final(self).wf(),
            final(self).shape_ok(),
            final(self).workers() == old(self).workers(),
            final(self)@.arrived == old(self)@.arrived,
            final(self)@.coordinator_arrived == old(self)@.coordinator_arrived,
            final(self)@.stopped == old(self)@.stopped,
            !released(old(self)@) ==> final(self)@ == old(self)@ && action == WorkerAction::Continue,
            released(old(self)@) && (old(self)@.stopped || old(self)@.exited[i as int]) ==> {
                &&& action == WorkerAction::Exit
                &&& final(self)@.counts == old(self)@.counts
                &&& final(self)@.exited == old(self)@.exited.update(i as int, true)
            },
            released(old(self)@) && !old(self)@.stopped && !old(self)@.exited[i as int] ==> {
                &&& action == WorkerAction::Continue
                &&& final(self)@.exited == old(self)@.exited
                &&& final(self)@.counts == old(self)@.counts.update(
                    i as int,
                    (old(self)@.counts[i as int] + added(counter_sum(old(self)@.counts), bytes)) as u64,
                )
            },
            counter_sum(final(self)@.counts) >= counter_sum(old(self)@.counts),
    {
        proof {
            self.lemma_waiting();
        }
        if self.waiting != 0 {
            return WorkerAction::Continue;
        }
        if self.signal == StopSignal::Stop || self.exited[i] {
            self.exited.set(i, true);
            proof {
                assert(self@.arrived == self.arrived@);
            }
            return WorkerAction::Exit;
        }
        let add = if bytes > u64::MAX - self.total {
            u64::MAX - self.total
        } else {
            bytes
        };
        proof {
            lemma_counter_sum_update(self.counts@, i as int, (self.counts@[i as int] + add) as u64);
            lemma_counter_sum_member(self.counts@, i as int);
        }
        let c = self.counts[i];
        self.counts.set(i, c + add);
        self.total = self.total + add;
        proof {
            assert(self@.arrived == self.arrived@);
        }
        WorkerAction::Continue
    }

    /// Worker `i` left its I/O loop on an error; its counter keeps what it
    /// had counted.
    pub fn fail(&mut self, i: usize)
        requires
            old(self).wf(),
            i < old(self).workers(),
        ensures
            final(self).wf(),
            final(self).shape_ok(),
            final(self).workers() == old(self).workers(),
            final(self)@ == (PoolState { exited: old(self)@.exited.update(i as int, true), ..old(self)@ }),
    {
        self.exited.set(i, true);
    }

    /// Broadcasts `Stop`. Nothing sets the signal back to `Running`.
    pub fn stop(&mut self)
        requires
            old(self).wf(),
        ensures
            final(self).wf(),
            final(self).shape_ok(),
            final(self).workers() == old(self).workers(),
            final(self)@ == (PoolState { stopped: true, ..old(self)@ }),
    {
        self.signal = StopSignal::Stop;
    }

    /// The aggregate of all worker counters.
    pub fn total(&self) -> (r: u64)
        requires
            self.wf(),
        ensures
            r == counter_sum(self@.counts),
    {
        self.total
    }

    pub fn count_of(&self, i: usize) -> (r: u64)
        requires
            self.wf(),
            i < self.workers(),
        ensures
            r == self@.counts[i as int],
    {
        self.counts[i]
    }
}

/// A worker counter above zero means that every worker and the coordinator
/// had reached the rendezvous: nothing is counted before it releases.
pub proof fn lemma_counting_needs_rendezvous(p: WorkerPool, i: int)
    requires
        p.wf(),
        0 <= i < p@.counts.len(),
        p@.counts[i] > 0,
    ensures
        p@.coordinator_arrived,
        forall|j: int| 0 <= j < p@.arrived.len() ==> #[trigger] p@.arrived[j],
{
}

/// What one transfer of `bytes` adds when the counters already sum to
/// `total`: all of it, or what is left below `u64::MAX`.
pub open spec fn added(total: nat, bytes: u64) -> nat {
    if total + bytes > u64::MAX {
        (u64::MAX - total) as nat
    } else {
        bytes as nat
    }
}

/// All entries are `true` exactly when the count is the length.
pub proof fn lemma_count_true_full(s: Seq<bool>)
    ensures
        count_true(s) <= s.len(),
        (count_true(s) == s.len()) == (forall|i: int| 0 <= i < s.len() ==> #[trigger] s[i]),
    decreases s.len(),
{
    if s.len() > 0 {
        let p = s.drop_last();
        lemma_count_true_full(p);
        if count_true(s) == s.len() {
            assert forall|i: int| 0 <= i < s.len() implies #[trigger] s[i] by {
                if i < p.len() {
                    assert(p[i] == s[i]);
                }
            }
        }
        if forall|i: int| 0 <= i < s.len() ==> #[trigger] s[i] {
            assert forall|i: int| 0 <= i < p.len() implies #[trigger] p[i] by {
                assert(s[i]);
            }
            assert(s[s.len() - 1]);
        }
    }
}

/// Setting a `false` entry to `true` adds one to the count.
pub proof fn lemma_count_true_set(s: Seq<bool>, i: int)
    requires
        0 <= i < s.len(),
        !s[i],
    ensures
        count_true(s.update(i, true)) == count_true(s) + 1,
    decreases s.len(),
{
    let u = s.update(i, true);
    if i < s.len() - 1 {
        assert(u.drop_last() =~= s.drop_last().update(i, true));
        lemma_count_true_set(s.drop_last(), i);
    } else {
        assert(u.drop_last() =~= s.drop_last());
    }
}

/// Replacing one counter changes the sum by the difference.
pub proof fn lemma_counter_sum_update(s: Seq<u64>, i: int, v: u64)
    requires
        0 <= i < s.len(),
    ensures
        counter_sum(s.update(i, v)) == counter_sum(s) - s[i] + v,
    decreases s.len(),
{
    let u = s.update(i, v);
    if i < s.len() - 1 {
        assert(u.drop_last() =~= s.drop_last().update(i, v));
        lemma_counter_sum_update(s.drop_last(), i, v);
    } else {
        assert(u.drop_last() =~= s.drop_last());
    }
}

/// One counter is at most the sum.
pub proof fn lemma_counter_sum_member(s: Seq<u64>, i: int)
    requires
        0 <= i < s.len(),
    ensures
        s[i] <= counter_sum(s),
    decreases s.len(),
{
    if i < s.len() - 1 {
        lemma_counter_sum_member(s.drop_last(), i);
    }
}

} // verus!
