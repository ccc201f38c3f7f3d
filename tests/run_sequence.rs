use bim::engine::{phase_event, MeasurementResult, PhaseDriver, RunAction, RunEvent, RunState, TickOutcome};
use bim::target::{PhaseSettings, Protocol};
use bim::latency::LatencySamples;
use bim::sampler::RateSampler;

#[test]
fn full_run_goes_probe_download_upload_done() {
    let (s, a) = RunState::Idle.step(RunEvent::Start);
    assert_eq!((s, a), (RunState::Probing, RunAction::Probe));
    let (s, a) = s.step(RunEvent::ProbeFinished { reachable: true });
    assert_eq!((s, a), (RunState::Downloading, RunAction::Download));
    let (s, a) = s.step(RunEvent::PhaseFinished { saw_traffic: true });
    assert_eq!((s, a), (RunState::Uploading, RunAction::Upload));
    let (s, a) = s.step(RunEvent::PhaseFinished { saw_traffic: false });
    assert_eq!((s, a), (RunState::Done, RunAction::Report));
    assert!(s.is_terminal());
}

#[test]
fn failed_download_skips_upload() {
    let (s, a) = RunState::Downloading.step(RunEvent::PhaseFinished { saw_traffic: false });
    assert_eq!((s, a), (RunState::Skipped, RunAction::SkipUpload));
    assert!(!s.is_terminal());
    let (s, a) = s.step(RunEvent::UploadSkipped);
    assert_eq!((s, a), (RunState::Done, RunAction::Report));
}

#[test]
fn event_out_of_place_is_ignored() {
    assert_eq!(RunState::Idle.step(RunEvent::UploadSkipped), (RunState::Idle, RunAction::Ignore));
    assert_eq!(
        RunState::Uploading.step(RunEvent::ProbeFinished { reachable: true }),
        (RunState::Uploading, RunAction::Ignore)
    );
    assert_eq!(RunState::Done.step(RunEvent::Start), (RunState::Done, RunAction::Ignore));
}

#[test]
fn phase_event_reports_traffic() {
    let mut s = RateSampler::new(2);
    assert_eq!(phase_event(&s), RunEvent::PhaseFinished { saw_traffic: false });
    s.record(0);
    assert_eq!(phase_event(&s), RunEvent::PhaseFinished { saw_traffic: false });
    s.record(5);
    assert_eq!(phase_event(&s), RunEvent::PhaseFinished { saw_traffic: true });
}

#[test]
fn result_cells_show_placeholders_until_measured() {
    let mut r = MeasurementResult::new();
    assert_eq!(r.cells(), ("-".to_string(), "-".to_string(), "-".to_string()));
    let mut p = LatencySamples::new();
    p.record(Some(2500));
    p.record(Some(1500));
    r.record_probe(&p);
    assert_eq!(r.ping_micros, Some(1500));
    r.set_download(Some(1_250_000));
    assert_eq!(
        r.cells(),
        ("-".to_string(), "10.0 Mbps".to_string(), "1.5 ms".to_string())
    );
    r.set_upload(Some(0));
    assert_eq!(r.cells().0, "0.0 bps");
    r.set_download(None);
    assert_eq!(r.cells().1, "-");
}

#[test]
fn phase_driver_publishes_rates_and_stops_after_its_ticks() {
    let settings = Protocol::HttpChunked.settings();
    let mut d = PhaseDriver::new(settings);
    let per_tick: u64 = 10 * 1024 * 1024;
    for t in 0..14u64 {
        let out = d.on_tick((t + 1) * per_tick);
        assert_eq!(out, TickOutcome { rate_per_second: Some(per_tick), stop: false });
    }
    let last = d.on_tick(15 * per_tick);
    assert_eq!(last, TickOutcome { rate_per_second: Some(per_tick), stop: true });
    assert_eq!(d.finish(), RunEvent::PhaseFinished { saw_traffic: true });
}

#[test]
fn phase_driver_scales_half_second_ticks() {
    let settings = PhaseSettings {
        ramp_up_ticks: 1,
        ticks: 3,
        tick_millis: 500,
        probe_samples: 5,
        probe_timeout_micros: 1_000_000,
    };
    let mut d = PhaseDriver::new(settings);
    assert_eq!(d.on_tick(100).rate_per_second, Some(200));
    assert_eq!(d.on_tick(150).rate_per_second, Some(100));
    let out = d.on_tick(350);
    assert_eq!(out.rate_per_second, Some(400));
    assert!(out.stop);
}

#[test]
fn phase_without_traffic_fails() {
    let mut d = PhaseDriver::new(Protocol::RawTcp.settings());
    for _ in 0..15 {
        d.on_tick(0);
    }
    assert_eq!(d.finish(), RunEvent::PhaseFinished { saw_traffic: false });
}
