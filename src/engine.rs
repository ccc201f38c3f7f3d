//! The sequence of one measurement run: probe, then download, then upload,
//! as a function from state and event to next state and action. The caller
//! performs each action and reports back how it went.
use vstd::prelude::*;
use crate::format::{figure_text, format_latency, format_throughput, latency_text, throughput_text};
use crate::latency::{
    is_ok, ok_count, ok_min, mean_deviation_spec, Average, LatencySamples, TIMEOUT_SENTINEL,
};
use crate::sampler::{per_second, per_second_spec, rate_at_tick, RateSampler};
use crate::target::PhaseSettings;

verus! {

#[derive(Clone, Copy, Debug, PartialEq, Eq, Structural)]
pub enum RunState {
    Idle,
    Probing,
    Downloading,
    Uploading,
    /// The download phase saw no traffic, so the upload phase is not run.
    Skipped,
    /// The probe got no answer: nothing else is attempted.
    Aborted,
    Done,
}

#[derive(Clone, Copy, Debug, PartialEq, Eq, Structural)]
pub enum RunEvent {
    Start,
    ProbeFinished { reachable: bool },
    PhaseFinished { saw_traffic: bool },
    UploadSkipped,
}

#[derive(Clone, Copy, Debug, PartialEq, Eq, Structural)]
pub enum RunAction {
    Probe,
    Download,
    Upload,
    /// Record a zero upload, then report `UploadSkipped`.
    SkipUpload,
    /// Publish the final result; the run is over.
    Report,
    /// The event does not apply in this state.
    Ignore,
}

pub open spec fn transition(s: RunState, e: RunEvent) -> (RunState, RunAction) {
    match (s, e) {
        (RunState::Idle, RunEvent::Start) => (RunState::Probing, RunAction::Probe),
        (RunState::Probing, RunEvent::ProbeFinished { reachable }) => if reachable {
            (RunState::Downloading, RunAction::Download)
        } else {
            (RunState::Aborted, RunAction::Report)
        },
        (RunState::Downloading, RunEvent::PhaseFinished { saw_traffic }) => if saw_traffic {
            (RunState::Uploading, RunAction::Upload)
        } else {
            (RunState::Skipped, RunAction::SkipUpload)
        },
        (RunState::Uploading, RunEvent::PhaseFinished { saw_traffic: _ }) => (
            RunState::Done,
            RunAction::Report,
        ),
        (RunState::Skipped, RunEvent::UploadSkipped) => (RunState::Done, RunAction::Report),
        _ => (s, RunAction::Ignore),
    }
}

pub open spec fn is_terminal(s: RunState) -> bool {
    s == RunState::Aborted || s == RunState::Done
}

impl RunState {
    /// The next state and the action to perform for `event`; an event that
    /// does not apply leaves the state as it is.
    pub fn step(self, event: RunEvent) -> (r: (RunState, RunAction))
        ensures
            r == transition(self, event),
    {
        match (self, event) {
            (RunState::Idle, RunEvent::Start) => (RunState::Probing, RunAction::Probe),
            (RunState::Probing, RunEvent::ProbeFinished { reachable }) => if reachable {
                (RunState::Downloading, RunAction::Download)
            } else {
                (RunState::Aborted, RunAction::Report)
            },
            (RunState::Downloading, RunEvent::PhaseFinished { saw_traffic }) => if saw_traffic {
                (RunState::Uploading, RunAction::Upload)
            } else {
                (RunState::Skipped, RunAction::SkipUpload)
            },
            (RunState::Uploading, RunEvent::PhaseFinished { saw_traffic: _ }) => (
                RunState::Done,
                RunAction::Report,
            ),
            (RunState::Skipped, RunEvent::UploadSkipped) => (RunState::Done, RunAction::Report),
            _ => (self, RunAction::Ignore),
        }
    }

    pub fn is_terminal(self) -> (r: bool)
        ensures
            r == is_terminal(self),
    {
        self == RunState::Aborted || self == RunState::Done
    }
}

/// The event that ends the probe: reachable when some sample succeeded.
pub fn probe_event(samples: &LatencySamples) -> (r: RunEvent)
    requires
        samples.wf(),
    ensures
        r == (RunEvent::ProbeFinished { reachable: ok_count(samples@) > 0 }),
{
    let m = samples.min_of_n();
    RunEvent::ProbeFinished { reachable: m.is_some() }
}

/// The event that ends a throughput phase: whether any byte was counted.
pub fn phase_event(sampler: &RateSampler) -> (r: RunEvent)
    ensures
        r == (RunEvent::PhaseFinished {
            saw_traffic: sampler.readings().len() > 0 && sampler.readings().last() > 0,
        }),
{
    RunEvent::PhaseFinished { saw_traffic: sampler.saw_traffic() }
}

/// A probe in which every sample timed out fails, and the run goes from
/// probing straight to `Aborted`; from there no event starts a download or
/// an upload.
pub proof fn lemma_all_timeouts_abort(s: Seq<u64>, e: RunEvent)
    requires
        forall|i: int| 0 <= i < s.len() ==> #[trigger] s[i] == TIMEOUT_SENTINEL,
    ensures
        ok_count(s) == 0,
        transition(RunState::Probing, RunEvent::ProbeFinished { reachable: ok_count(s) > 0 }) == (
            RunState::Aborted,
            RunAction::Report,
        ),
        transition(RunState::Aborted, e) == (RunState::Aborted, RunAction::Ignore),
    decreases s.len(),
{
    if s.len() > 0 {
        let p = s.drop_last();
        assert forall|i: int| 0 <= i < p.len() implies #[trigger] p[i] == TIMEOUT_SENTINEL by {
            assert(p[i] == s[i]);
        }
        lemma_all_timeouts_abort(p, e);
        assert(!is_ok(s[s.len() - 1]));
    }
}

/// Once a run is over, no event changes its state or asks for any work.
pub proof fn lemma_terminal_is_final(s: RunState, e: RunEvent)
    requires
        is_terminal(s),
    ensures
        transition(s, e) == (s, RunAction::Ignore),
{
}

/// The upload phase runs only after a download phase that saw traffic.
pub proof fn lemma_upload_needs_download(s: RunState, e: RunEvent)
    requires
        transition(s, e).1 == RunAction::Upload,
    ensures
        s == RunState::Downloading,
        e == (RunEvent::PhaseFinished { saw_traffic: true }),
{
}

/// What the coordinator learns from one tick of a throughput phase.
#[derive(Clone, Copy, Debug, PartialEq, Eq, Structural)]
pub struct TickOutcome {
    /// The rate to publish, in bytes per second.
    pub rate_per_second: Option<u64>,
    /// The phase has run its ticks: broadcast `Stop`.
    pub stop: bool,
}

/// The coordinator's side of one throughput phase: it takes the aggregate
/// counter at each tick and says what to publish and when to stop.
pub struct PhaseDriver {
    sampler: RateSampler,
    elapsed: usize,
    ticks: usize,
    tick_millis: u64,
}

impl PhaseDriver {
    pub closed spec fn wf(&self) -> bool {
        &&& self.sampler.wf()
        &&& self.tick_millis > 0
    }

    pub closed spec fn sampler_spec(&self) -> RateSampler {
        self.sampler
    }

    /// Ticks taken so far.
    pub closed spec fn elapsed_ticks(&self) -> nat {
        self.elapsed as nat
    }

    pub closed spec fn planned_ticks(&self) -> nat {
        self.ticks as nat
    }

    pub closed spec fn tick_length(&self) -> nat {
        self.tick_millis as nat
    }

    pub fn new(settings: PhaseSettings) -> (r: PhaseDriver)
        requires
            settings.tick_millis > 0,
        ensures
            r.wf(),
            r.sampler_spec().wf(),
            r.sampler_spec().readings() == Seq::<u64>::empty(),
            r.sampler_spec().ramp_up_ticks() == settings.ramp_up_ticks,
            r.elapsed_ticks() == 0,
            r.planned_ticks() == settings.ticks,
            r.tick_length() == settings.tick_millis,
    {
        PhaseDriver {
            sampler: RateSampler::new(settings.ramp_up_ticks),
            elapsed: 0,
            ticks: settings.ticks,
            tick_millis: settings.tick_millis,
        }
    }

    /// Records the aggregate counter read at a tick. The rate to publish is
    /// the sampler's rate at its latest reading, per second; the phase stops
    /// once it has taken its planned ticks.
    pub fn on_tick(&mut self, aggregate: u64) -> (r: TickOutcome)
        requires
            old(self).wf(),
        ensures
            final(self).wf(),
            final(self).sampler_spec().wf(),
            final(self).planned_ticks() == old(self).planned_ticks(),
            final(self).tick_length() == old(self).tick_length(),
            final(self).sampler_spec().ramp_up_ticks() == old(self).sampler_spec().ramp_up_ticks(),
            final(self).elapsed_ticks() == if old(self).elapsed_ticks() < usize::MAX {
                old(self).elapsed_ticks() + 1
            } else {
                old(self).elapsed_ticks()
            },
            ({
                let s = old(self).sampler_spec().readings();
                if s.len() == 0 || s.last() <= aggregate {
                    final(self).sampler_spec().readings() == s.push(aggregate)
                } else {
                    final(self).sampler_spec().readings() == s
                }
            }),
            ({
                let s = final(self).sampler_spec().readings();
                if s.len() == 0 {
                    r.rate_per_second is None
                } else {
                    r.rate_per_second == Some(
                        per_second_spec(
                            rate_at_tick(
                                s,
                                final(self).sampler_spec().ramp_up_ticks() as int,
                                s.len() - 1,
                            ) as nat,
                            final(self).tick_length(),
                        ) as u64,
                    )
                }
            }),
            r.stop == (final(self).elapsed_ticks() >= final(self).planned_ticks()),
    {
        if self.elapsed < usize::MAX {
            self.elapsed = self.elapsed + 1;
        }
        let _accepted = self.sampler.record(aggregate);
        let rate = match self.sampler.current_rate() {
            Some(per_tick) => Some(per_second(per_tick, self.tick_millis)),
            None => None,
        };
        TickOutcome { rate_per_second: rate, stop: self.elapsed >= self.ticks }
    }

    /// The event that ends the phase.
    pub fn finish(&self) -> (r: RunEvent)
        ensures
            r == (RunEvent::PhaseFinished {
                saw_traffic: self.sampler_spec().readings().len() > 0
                    && self.sampler_spec().readings().last() > 0,
            }),
    {
        phase_event(&self.sampler)
    }
}

/// The figures of one run; `None` until measured.
#[derive(Clone, Copy, Debug, PartialEq, Eq, Structural)]
pub struct MeasurementResult {
    /// Least round trip, in microseconds.
    pub ping_micros: Option<u64>,
    /// Mean deviation of the round trips above the least one, in microseconds.
    pub jitter: Option<Average>,
    pub download_bytes_per_second: Option<u64>,
    pub upload_bytes_per_second: Option<u64>,
}

impl MeasurementResult {
    pub fn new() -> (r: MeasurementResult)
        ensures
            r.ping_micros is None,
            r.jitter is None,
            r.download_bytes_per_second is None,
            r.upload_bytes_per_second is None,
    {
        MeasurementResult {
            ping_micros: None,
            jitter: None,
            download_bytes_per_second: None,
            upload_bytes_per_second: None,
        }
    }

    /// Takes the minimum and the jitter of a probe.
    pub fn record_probe(&mut self, samples: &LatencySamples)
        requires
            samples.wf(),
        ensures
            ok_count(samples@) == 0 ==> final(self).ping_micros is None,
            ok_count(samples@) > 0 ==> final(self).ping_micros == Some(ok_min(samples@) as u64),
            final(self).jitter == mean_deviation_spec(samples@),
            final(self).download_bytes_per_second == old(self).download_bytes_per_second,
            final(self).upload_bytes_per_second == old(self).upload_bytes_per_second,
    {
        self.ping_micros = samples.min_of_n();
        self.jitter = samples.mean_deviation();
    }

    pub fn set_download(&mut self, bytes_per_second: Option<u64>)
        ensures
            final(self).download_bytes_per_second == bytes_per_second,
            final(self).ping_micros == old(self).ping_micros,
            final(self).jitter == old(self).jitter,
            final(self).upload_bytes_per_second == old(self).upload_bytes_per_second,
    {
        self.download_bytes_per_second = bytes_per_second;
    }

    pub fn set_upload(&mut self, bytes_per_second: Option<u64>)
        ensures
            final(self).upload_bytes_per_second == bytes_per_second,
            final(self).ping_micros == old(self).ping_micros,
            final(self).jitter == old(self).jitter,
            final(self).download_bytes_per_second == old(self).download_bytes_per_second,
    {
        self.upload_bytes_per_second = bytes_per_second;
    }

    /// The upload, download and ping cells of a progress line; a figure not
    /// measured shows as `-`, a measured zero as a zero rate.
    pub fn cells(&self) -> (r: (String, String, String))
        ensures
            r.0@ == figure_text(self.upload_bytes_per_second, |v: nat| throughput_text(v)),
            r.1@ == figure_text(self.download_bytes_per_second, |v: nat| throughput_text(v)),
            r.2@ == figure_text(self.ping_micros, |v: nat| latency_text(v)),
    {
        (
            throughput_cell(self.upload_bytes_per_second),
            throughput_cell(self.download_bytes_per_second),
            latency_cell(self.ping_micros),
        )
    }
}

fn throughput_cell(figure: Option<u64>) -> (r: String)
    ensures
        r@ == figure_text(figure, |v: nat| throughput_text(v)),
{
    proof {
        reveal_strlit("-");
    }
    match figure {
        Some(v) => format_throughput(v),
        None => String::from_str("-"),
    }
}

fn latency_cell(figure: Option<u64>) -> (r: String)
    ensures
        r@ == figure_text(figure, |v: nat| latency_text(v)),
{
    match figure {
        Some(v) => format_latency(v),
        None => String::from_str("-"),
    }
}

} // verus!
